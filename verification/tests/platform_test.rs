use acpbridge::channel::buffers::{handle_outgoing, StreamBuffers};
use acpbridge::channel::discord::{self, DiscordAdapter, DiscordMessage};
use acpbridge::channel::lark::{self, normalize_content};
use acpbridge::channel::qq::{self, parse_message_content};
use acpbridge::channel::telegram::{self, OutgoingStep, StreamAction, StreamStates};
use acpbridge::channel::token::TokenCache;
use acpbridge::channel::wechat::{
    self, extract_message_content, generate_client_id, generate_uin_header, uin_header,
    GetUpdatesResponse, MessageItem, PollLoop, PollOutcome, PollStep, RefMsg, TextItem, TypingStep,
    VoiceItem, WeChatAdapter, WeChatConfig, WeixinMessage, MSG_ITEM_TEXT, MSG_ITEM_VOICE,
    MSG_TYPE_USER,
};
use acpbridge::channel::{ChatId, IncomingContent, OutgoingContent, OutgoingMessage};
use acpbridge::clock::{MILLISECOND, SECOND};
use acpbridge::message::IngressContent;
use base64::engine::general_purpose::STANDARD;
use base64::Engine;

fn chat(id: &str) -> ChatId {
    ChatId(id.to_string())
}

fn text(s: &str) -> OutgoingMessage {
    OutgoingMessage { content: OutgoingContent::Text(s.to_string()) }
}

fn chunk(s: &str) -> OutgoingMessage {
    OutgoingMessage { content: OutgoingContent::StreamChunk(s.to_string()) }
}

fn end() -> OutgoingMessage {
    OutgoingMessage { content: OutgoingContent::StreamEnd }
}

fn error(s: &str) -> OutgoingMessage {
    OutgoingMessage { content: OutgoingContent::Error(s.to_string()) }
}

fn mention(bot: &str, message: &str) -> OutgoingMessage {
    OutgoingMessage {
        content: OutgoingContent::Mention {
            target_bot: bot.to_string(),
            target_channel_name: None,
            message: message.to_string(),
        },
    }
}

// ---------------------------------------------------------------------------
// Buffers
// ---------------------------------------------------------------------------

#[test]
fn chunks_are_sent_together_when_they_end() {
    let mut buffers = StreamBuffers::new();
    let a = chat("c2c:a");
    let b = chat("c2c:b");
    assert!(handle_outgoing(&mut buffers, &a, chunk("Hel"), 1).is_empty());
    assert!(handle_outgoing(&mut buffers, &b, chunk("other"), 1).is_empty());
    assert!(handle_outgoing(&mut buffers, &a, chunk("lo"), 2).is_empty());
    assert_eq!(handle_outgoing(&mut buffers, &a, text("note"), 3), vec!["note"]);
    assert_eq!(handle_outgoing(&mut buffers, &a, error("bad"), 3), vec!["Error: bad"]);
    assert_eq!(handle_outgoing(&mut buffers, &a, mention("bot", "hi"), 3), vec!["@bot hi"]);
    assert_eq!(handle_outgoing(&mut buffers, &a, end(), 4), vec!["Hello"]);
    assert!(handle_outgoing(&mut buffers, &a, end(), 5).is_empty());
    assert_eq!(handle_outgoing(&mut buffers, &b, end(), 6), vec!["other"]);
}

#[test]
fn stale_texts_are_flushed() {
    let mut buffers = StreamBuffers::new();
    let _ = handle_outgoing(&mut buffers, &chat("old"), chunk("x"), 0);
    let _ = handle_outgoing(&mut buffers, &chat("empty"), chunk(""), 0);
    let _ = handle_outgoing(&mut buffers, &chat("new"), chunk("y"), 20 * SECOND);
    assert!(qq::check_and_flush_timeouts(&mut buffers, 30 * SECOND).is_empty());
    let flushed = qq::check_and_flush_timeouts(&mut buffers, 30 * SECOND + 1);
    assert_eq!(flushed.len(), 1);
    assert_eq!(flushed[0].chat_id, chat("old"));
    assert_eq!(flushed[0].text, "x");
    assert_eq!(buffers.len(), 1);
    assert_eq!(handle_outgoing(&mut buffers, &chat("new"), end(), 31 * SECOND), vec!["y"]);
}

#[test]
fn the_oldest_texts_give_way() {
    let mut buffers = StreamBuffers::new();
    for i in 0..5_u64 {
        let _ = buffers.append(&format!("chat{}", i), "t", 100 - i);
    }
    let mut gone: Vec<String> = buffers.evict(3).into_iter().map(|f| f.chat_id.0).collect();
    gone.sort();
    assert_eq!(gone, vec!["chat3", "chat4"]);
    assert_eq!(buffers.len(), 3);
    assert!(buffers.evict(3).is_empty());
}

// ---------------------------------------------------------------------------
// Tokens
// ---------------------------------------------------------------------------

#[test]
fn tokens_are_used_until_shortly_before_they_run_out() {
    let mut cache = TokenCache::new();
    assert_eq!(cache.get_token(0), None);
    cache.store("t".to_string(), 7200, 1000 * SECOND);
    assert_eq!(cache.get_token(1000 * SECOND), Some("t".to_string()));
    assert_eq!(cache.get_token(7900 * SECOND - 1), Some("t".to_string()));
    assert_eq!(cache.get_token(7900 * SECOND), None);
    cache.store("forever".to_string(), u64::MAX, u64::MAX);
    assert_eq!(cache.get_token(u64::MAX), Some("forever".to_string()));
}

// ---------------------------------------------------------------------------
// QQ
// ---------------------------------------------------------------------------

#[test]
fn qq_test_chat_id_parsing() {
    let c2c_id = ChatId("c2c:test_user_openid".to_string());
    assert!(c2c_id.0.starts_with("c2c:"));

    let group_id = ChatId("group:test_group_openid".to_string());
    assert!(group_id.0.starts_with("group:"));
}

fn qq_command(s: &str) -> Option<(String, Option<String>)> {
    match parse_message_content(s) {
        IncomingContent::Command { name, args } => Some((name, args)),
        IncomingContent::Text(_) => None,
    }
}

#[test]
fn qq_commands_may_follow_mentions() {
    assert_eq!(qq_command("<@!123> /Help"), Some(("help".to_string(), None)));
    assert_eq!(qq_command(" /model gpt-4 "), Some(("model".to_string(), Some("gpt-4".to_string()))));
    assert_eq!(qq_command("/  cd /tmp"), Some(("cd".to_string(), Some("/tmp".to_string()))));
    assert_eq!(qq_command("what is 1/2"), None);
    match parse_message_content("  a/b ") {
        IncomingContent::Text(t) => assert_eq!(t, "a/b"),
        _ => panic!("expected text"),
    }
    match parse_message_content("<@!1> hello") {
        IncomingContent::Text(t) => assert_eq!(t, "hello"),
        _ => panic!("expected text"),
    }
}

fn qq_text(s: &str) -> Option<String> {
    match parse_message_content(s) {
        IncomingContent::Text(text) => Some(text),
        IncomingContent::Command { .. } => None,
    }
}

#[test]
fn qq_mentions_are_taken_off() {
    assert_eq!(qq_command("@bot /help"), Some(("help".to_string(), None)));
    assert_eq!(qq_command("@bot <@!5>@other  / Model gpt-4"), Some(("model".to_string(), Some("gpt-4".to_string()))));
    assert_eq!(qq_command("<@bot>/new"), Some(("new".to_string(), None)));
    assert_eq!(qq_text("<@!123456> hello"), Some("hello".to_string()));
    assert_eq!(qq_text("@bot what is 1/2"), Some("what is 1/2".to_string()));
    assert_eq!(qq_text("hello @bot"), Some("hello @bot".to_string()));
    assert_eq!(qq_text("a@b.c"), Some("a@b.c".to_string()));
    assert_eq!(qq_text("<@ hello"), Some("<@ hello".to_string()));
    assert_eq!(qq_text("<b> hello"), Some("<b> hello".to_string()));
    assert_eq!(qq_text(" @bot "), Some("".to_string()));
    assert_eq!(qq_command("12 /new"), Some(("new".to_string(), None)));
    assert_eq!(qq_text("@bot 12 /new"), Some("12 /new".to_string()));
}

#[test]
fn gateway_errors_are_put_in_words() {
    let words = |e: qq::GatewayError| e.message();
    assert_eq!(words(qq::GatewayError::NotHello { op_code: 0 }), "Expected Hello, got op=0");
    assert_eq!(words(qq::GatewayError::NotDispatch { op_code: 10 }), "Expected Ready dispatch, got op=10");
    assert_eq!(
        words(qq::GatewayError::NotReady { op_code: 9, event_type: None }),
        "Expected Ready/Resumed, got op=9 t=None"
    );
    assert_eq!(
        words(qq::GatewayError::NotReady { op_code: 0, event_type: Some("A\"B".to_string()) }),
        "Expected Ready/Resumed, got op=0 t=Some(\"A\\\"B\")"
    );
    assert_eq!(
        qq::describe_not_ready(7, &Some("'X'".to_string())),
        "Expected Ready/Resumed, got op=7 t=Some('X')"
    );
    assert_eq!(qq::EventStep::MissingData.error_message(), Some("Missing event data".to_string()));
    assert_eq!(qq::EventStep::Unreadable("why".to_string()).error_message(), Some("why".to_string()));
    assert_eq!(qq::EventStep::Ignore.error_message(), None);
}

#[test]
fn lark_errors_are_put_in_words() {
    reads_as(lark::EventError::MissingData, "Missing event data");
    reads_as(lark::EventError::UnreadableEvent("x".to_string()), "Failed to parse message event");
    reads_as(lark::EventError::UnreadableContent("x".to_string()), "Failed to parse message content");
    reads_as(lark::EventError::MissingChatId, "Missing chat_id for group message");
}

fn reads_as(e: lark::EventError, words: &str) {
    assert_eq!(e.message(), words);
}

#[test]
fn unreadable_answers_are_shown_in_part() {
    assert_eq!(wechat::preview("<html>"), "<html>");
    assert_eq!(wechat::preview(&"é".repeat(200)), "é".repeat(200));
    assert_eq!(wechat::preview(&"é".repeat(201)), format!("{}...", "é".repeat(200)));
}

fn frame(op_code: u8, event_type: Option<&str>) -> qq::Frame {
    qq::Frame { op_code, sequence: None, event_type: event_type.map(|s| s.to_string()), data: None }
}

fn data(interval: Option<u64>, session: Option<&str>) -> Option<qq::FrameData> {
    Some(qq::FrameData {
        heartbeat_interval: interval,
        session_id: session.map(|s| s.to_string()),
        message: Err("no message".to_string()),
    })
}

#[test]
fn qq_sessions_begin_and_are_resumed() {
    let mut state = qq::SessionState::new();
    let hello = qq::Frame { data: data(Some(30000), None), ..frame(qq::OP_HELLO, None) };
    let (interval, out) = qq::on_hello(&hello, &state, "tok").unwrap();
    assert_eq!(interval, 30000);
    assert_eq!(out.op_code(), qq::OP_IDENTIFY);
    match out {
        qq::Outgoing::Identify { token, intents, shard, shards, os, client } => {
            assert_eq!(token, "QQBot tok");
            assert_eq!(intents, 1 << 25);
            assert_eq!((shard, shards), (0, 1));
            assert_eq!((os.as_str(), client.as_str()), ("linux", "acpconnector"));
        }
        _ => panic!("expected an identification"),
    }
    let ready = qq::Frame { data: data(None, Some("s1")), ..frame(qq::OP_DISPATCH, Some("READY")) };
    let mut gateway = qq::on_ready(&ready, &mut state).unwrap();
    assert_eq!(state.get(), (Some("s1".to_string()), None));
    match gateway.heartbeat() {
        qq::Outgoing::Heartbeat { last_sequence } => assert_eq!(last_sequence, None),
        _ => panic!("expected a heartbeat"),
    }
    let event = qq::Frame { sequence: Some(42), ..frame(qq::OP_DISPATCH, None) };
    assert!(matches!(gateway.on_frame(&event, &mut state), qq::FrameStep::Handle));
    assert!(matches!(gateway.on_frame(&frame(qq::OP_HEARTBEAT_ACK, None), &mut state), qq::FrameStep::Ignore));
    assert!(matches!(gateway.on_frame(&frame(99, None), &mut state), qq::FrameStep::Ignore));
    match gateway.heartbeat() {
        qq::Outgoing::Heartbeat { last_sequence } => assert_eq!(last_sequence, Some(42)),
        _ => panic!("expected a heartbeat"),
    }
    assert!(matches!(gateway.on_frame(&frame(qq::OP_RECONNECT, None), &mut state), qq::FrameStep::Close));
    gateway.close(&mut state);

    let greeting = frame(qq::OP_HELLO, None);
    let (interval, out) = qq::on_hello(&greeting, &state, "tok2").unwrap();
    assert_eq!(interval, 45000);
    assert_eq!(out.op_code(), qq::OP_RESUME);
    match out {
        qq::Outgoing::Resume { token, session_id, seq } => {
            assert_eq!((token.as_str(), session_id.as_str(), seq), ("QQBot tok2", "s1", 42));
        }
        _ => panic!("expected a resumption"),
    }
    let resumed = qq::on_ready(&frame(qq::OP_DISPATCH, Some("RESUMED")), &mut state).unwrap();
    resumed.close(&mut state);
    assert_eq!(state.get(), (Some("s1".to_string()), Some(42)));
}

#[test]
fn qq_sessions_that_are_refused_are_forgotten() {
    let mut state = qq::SessionState::new();
    state.set(Some("s1".to_string()), Some(7));
    state.set(Some("s2".to_string()), None);
    assert_eq!(state.get(), (Some("s2".to_string()), Some(7)));
    assert!(matches!(
        qq::on_hello(&frame(qq::OP_DISPATCH, None), &state, "t"),
        Err(qq::GatewayError::NotHello { op_code: 0 })
    ));
    assert!(matches!(
        qq::on_ready(&frame(qq::OP_HELLO, Some("READY")), &mut state),
        Err(qq::GatewayError::NotDispatch { op_code: 10 })
    ));
    assert!(matches!(
        qq::on_ready(&frame(qq::OP_RECONNECT, None), &mut state),
        Err(qq::GatewayError::NotReady { op_code: 7, event_type: None })
    ));
    assert_eq!(state.get(), (Some("s2".to_string()), Some(7)));
    assert!(qq::on_ready(&frame(qq::OP_INVALID_SESSION, None), &mut state).is_err());
    assert_eq!(state.get(), (None, None));
}

#[test]
fn qq_sessions_that_become_invalid_are_kept_by_name() {
    let mut state = qq::SessionState::new();
    let ready = qq::Frame { data: data(None, Some("s1")), ..frame(qq::OP_DISPATCH, Some("READY")) };
    let mut gateway = qq::on_ready(&ready, &mut state).unwrap();
    assert!(matches!(
        gateway.on_frame(&frame(qq::OP_INVALID_SESSION, None), &mut state),
        qq::FrameStep::Close
    ));
    assert_eq!(state.get(), (None, None));
    gateway.close(&mut state);
    assert_eq!(state.get(), (Some("s1".to_string()), None));
}

fn qq_event(event_type: &str, group: Option<&str>, content: &str) -> qq::Frame {
    qq::Frame {
        op_code: qq::OP_DISPATCH,
        sequence: None,
        event_type: Some(event_type.to_string()),
        data: Some(qq::FrameData {
            heartbeat_interval: None,
            session_id: None,
            message: Ok(qq::QqMessage {
                id: "m1".to_string(),
                content: content.to_string(),
                user_openid: "u".to_string(),
                group_openid: group.map(|s| s.to_string()),
            }),
        }),
    }
}

#[test]
fn qq_messages_are_answered_where_they_came_from() {
    let mut recent = qq::RecentMessages::new();
    let mut counter = 1;
    for (kind, group, chat_id, url) in [
        ("C2C_MESSAGE_CREATE", None, "c2c:u", "https://api.sgroup.qq.com/v2/users/u/messages"),
        ("GROUP_AT_MESSAGE_CREATE", Some("g"), "group:g", "https://api.sgroup.qq.com/v2/groups/g/messages"),
        ("GROUP_AT_MESSAGE_CREATE", None, "group:", "https://api.sgroup.qq.com/v2/groups//messages"),
    ] {
        let before = qq::send_message(&chat(chat_id), "hi", &recent, &mut counter).unwrap();
        assert_eq!(before.msg_id, None);
        let message = match qq::handle_event(&qq_event(kind, group, "/NEW"), "ch", &mut recent) {
            qq::EventStep::Message(m) => m,
            _ => panic!("expected a message"),
        };
        assert_eq!(message.channel_name, "ch");
        assert_eq!(message.chat_id, chat(chat_id));
        assert!(matches!(&message.content, IngressContent::Command { name, args: None } if name == "new"));
        let plan = qq::send_message(&chat(chat_id), "hi", &recent, &mut counter).unwrap();
        assert_eq!(plan.url, url);
        assert_eq!(plan.msg_id, Some("m1".to_string()));
    }
    assert_eq!(counter, 7);
    assert_eq!(
        qq::send_message(&chat("p2p:x"), "hi", &recent, &mut counter).unwrap_err(),
        "Invalid chat_id format: p2p:x"
    );
    assert_eq!(counter, 7);
}

#[test]
fn qq_other_events_are_ignored() {
    let mut recent = qq::RecentMessages::new();
    assert!(matches!(
        qq::handle_event(&frame(0, Some("C2C_MESSAGE_CREATE")), "ch", &mut recent),
        qq::EventStep::MissingData
    ));
    assert!(matches!(
        qq::handle_event(&qq_event("READY", None, "x"), "ch", &mut recent),
        qq::EventStep::Ignore
    ));
    let unreadable = qq::Frame { data: data(None, None), ..frame(0, Some("C2C_MESSAGE_CREATE")) };
    assert!(matches!(
        qq::handle_event(&unreadable, "ch", &mut recent),
        qq::EventStep::Unreadable(why) if why == "no message"
    ));
}

#[test]
fn qq_long_messages_are_clipped_and_numbered() {
    let recent = qq::RecentMessages::new();
    let mut counter = u64::MAX;
    let long = "漢".repeat(2001);
    let plan = qq::send_message(&chat("c2c:u"), &long, &recent, &mut counter).unwrap();
    assert_eq!(plan.content, format!("{}...", "漢".repeat(1997)));
    assert_eq!(plan.msg_seq, u64::MAX);
    assert_eq!(qq::generate_msg_seq(&mut counter), 0);
    assert_eq!(qq::generate_msg_seq(&mut counter), 1);
    let plan = qq::send_message(&chat("c2c:u"), &"a".repeat(2000), &recent, &mut counter).unwrap();
    assert_eq!(plan.content.len(), 2000);
}

#[test]
fn qq_token_lifetimes_are_numbers() {
    assert_eq!(qq::token_lifetime("7200"), 7200);
    assert_eq!(qq::token_lifetime("soon"), 0);
    assert_eq!(qq::token_lifetime("99999999999999999999999"), 0);
    assert_eq!(qq::authorization_header("t"), "QQBot t");
}

#[test]
fn qq_channels_start_without_a_token() {
    let channel = qq::QqChannel::new("id".to_string(), "secret".to_string());
    assert_eq!(channel.app_id, "id");
    assert_eq!(channel.client_secret, "secret");
    assert_eq!(channel.token.get_token(0), None);
    let mut registry = qq::BotRegistry::new();
    assert!(registry.register(&Some("b".to_string()), "ch"));
    assert!(!registry.register(&None, "ch"));
}

// ---------------------------------------------------------------------------
// Lark
// ---------------------------------------------------------------------------

#[test]
fn lark_test_chat_id_parsing() {
    let p2p_id = ChatId("p2p:test_open_id".to_string());
    assert!(p2p_id.0.starts_with("p2p:"));

    let group_id = ChatId("group:test_chat_id".to_string());
    assert!(group_id.0.starts_with("group:"));
}

#[test]
fn test_normalize_content_plain_text() {
    let content = normalize_content("Hello world");
    assert_eq!(content, "Hello world");
}

#[test]
fn test_normalize_content_with_command() {
    let content = normalize_content("/help");
    assert_eq!(content, "/help");
}

#[test]
fn test_normalize_content_strips_lark_mention() {
    let content = normalize_content("<at user_id=\"ou_123abc\">@Bot</at> /help");
    assert_eq!(content, "/help");
}

#[test]
fn test_normalize_content_strips_legacy_mention() {
    let content = normalize_content("<at user_id=\"ou_xxx\">@Bot</at> Hello");
    assert_eq!(content, "Hello");
}

#[test]
fn test_normalize_content_at_format_with_args() {
    let content = normalize_content("<at user_id=\"ou_xxx\">@Bot</at> /model gpt-4");
    assert_eq!(content, "/model gpt-4");
}

#[test]
fn mentions_make_no_difference_to_what_follows_them() {
    let head = "<at user_id=\"ou\">@Bot</at> ";
    for rest in ["", "  ", " hi ", "<b>bold</b> x", "a @b c"] {
        assert_eq!(normalize_content(&format!("{head}{rest}")), normalize_content(rest));
    }
    for rest in ["", "new", " Model  gpt-4 ", "cd /tmp/x"] {
        let alone = format!("{:?}", parse_message_content(&format!("/{rest}")));
        for head in ["", "<@!123> ", "  <@4> @ "] {
            assert_eq!(format!("{:?}", parse_message_content(&format!("{head}/{rest}"))), alone);
        }
    }
}

#[test]
fn client_ids_differ_by_moment_and_count() {
    let mut counter: u64 = 2;
    let first = generate_client_id(11, &mut counter);
    assert_eq!(first, "acpbridge-11-2");
    assert_ne!(first, generate_client_id(11, &mut counter));
    let mut other: u64 = 12;
    assert_ne!(first, generate_client_id(1, &mut other));
}

#[test]
fn normalized_texts_have_no_tags() {
    assert_eq!(normalize_content("  a@b.c <b>bold</b> x "), "a@b.c bold x");
    assert_eq!(normalize_content("<p>@all now"), "now");
    assert_eq!(normalize_content("<a@b>name rest"), "rest");
    assert_eq!(normalize_content("> 1 < 2"), "1");
    assert_eq!(normalize_content(""), "");
}

fn lark_event(kind: &str, chat_type: &str, content: Result<&str, &str>) -> lark::MessageEvent {
    lark::MessageEvent {
        sender_open_id: "ou".to_string(),
        message_id: "om".to_string(),
        message_type: kind.to_string(),
        text: content.map(|s| s.to_string()).map_err(|s| s.to_string()),
        chat_type: chat_type.to_string(),
        message_chat_id: None,
        chat_id: None,
    }
}

fn lark_step(event: Option<Result<lark::MessageEvent, String>>) -> lark::EventStep {
    lark::handle_event(
        &lark::EventEnvelope { event_type: "im.message.receive_v1".to_string(), event },
        "my-lark",
    )
}

#[test]
fn lark_messages_reach_their_chat() {
    let event = lark_event("text", "p2p", Ok("<at x>@Bot</at> /Model a B"));
    match lark_step(Some(Ok(event))) {
        lark::EventStep::Message { message, react_to } => {
            assert_eq!(react_to, "om");
            assert_eq!(message.channel_name, "my-lark");
            assert_eq!(message.chat_id, chat("p2p:ou"));
            match message.content {
                IngressContent::Command { name, args } => {
                    assert_eq!(name, "model");
                    assert_eq!(args, Some("a B".to_string()));
                }
                _ => panic!("expected a command"),
            }
        }
        _ => panic!("expected a message"),
    }
    let mut event = lark_event("text", "group", Ok("hi"));
    event.message_chat_id = Some("m".to_string());
    match lark_step(Some(Ok(event))) {
        lark::EventStep::Message { message, .. } => assert_eq!(message.chat_id, chat("group:m")),
        _ => panic!("expected a message"),
    }
    let mut event = lark_event("text", "group", Ok("hi"));
    event.message_chat_id = Some("m".to_string());
    event.chat_id = Some("c".to_string());
    match lark_step(Some(Ok(event))) {
        lark::EventStep::Message { message, .. } => assert_eq!(message.chat_id, chat("group:c")),
        _ => panic!("expected a message"),
    }
}

#[test]
fn lark_other_events_are_ignored_or_fail() {
    let other = lark::EventEnvelope { event_type: "im.chat".to_string(), event: None };
    assert!(matches!(lark::handle_event(&other, "l"), lark::EventStep::Ignore));
    assert!(matches!(lark_step(None), lark::EventStep::Failed(lark::EventError::MissingData)));
    assert!(matches!(
        lark_step(Some(Err("bad".to_string()))),
        lark::EventStep::Failed(lark::EventError::UnreadableEvent(why)) if why == "bad"
    ));
    assert!(matches!(lark_step(Some(Ok(lark_event("image", "p2p", Err("x"))))), lark::EventStep::Ignore));
    assert!(matches!(
        lark_step(Some(Ok(lark_event("text", "p2p", Err("x"))))),
        lark::EventStep::Failed(lark::EventError::UnreadableContent(why)) if why == "x"
    ));
    assert!(matches!(lark_step(Some(Ok(lark_event("text", "topic", Ok("x"))))), lark::EventStep::Ignore));
    assert!(matches!(
        lark_step(Some(Ok(lark_event("text", "group", Ok("x"))))),
        lark::EventStep::Failed(lark::EventError::MissingChatId)
    ));
}

#[test]
fn lark_long_messages_are_split_into_parts() {
    let short = "a".repeat(4000);
    assert_eq!(lark::send_long_message(&short), vec![short.clone()]);
    let long = format!("{}{}", "b".repeat(8000), "c");
    let parts = lark::send_long_message(&long);
    assert_eq!(parts.len(), 3);
    assert_eq!(parts[0], format!("[Part 1/3]\n{}", "b".repeat(4000)));
    assert_eq!(parts[1], format!("[Part 2/3]\n{}", "b".repeat(4000)));
    assert_eq!(parts[2], "[Part 3/3]\nc");
}

#[test]
fn lark_messages_are_sent_as_json() {
    let plan = lark::send_single_message("https://l", &chat("p2p:ou"), "say \"hi\"\n").unwrap();
    assert_eq!(plan.url, "https://l/open-apis/im/v1/messages");
    assert_eq!((plan.receive_id_type.as_str(), plan.receive_id.as_str()), ("open_id", "ou"));
    assert_eq!(plan.content, "{\"text\":\"say \\\"hi\\\"\\n\"}");
    let plan = lark::send_single_message("https://l", &chat("group:oc"), "a\u{7f}é/x").unwrap();
    assert_eq!(plan.content, "{\"text\":\"a\u{7f}é/x\"}");
    let plan = lark::send_single_message("https://l", &chat("group:oc"), "\u{0}\u{8}\t\n\u{b}\u{c}\r\u{1f}\\").unwrap();
    assert_eq!(
        plan.content,
        "{\"text\":\"\\u0000\\b\\t\\n\\u000b\\f\\r\\u001f\\\\\"}"
    );
    assert_eq!((plan.receive_id_type.as_str(), plan.receive_id.as_str()), ("chat_id", "oc"));
    assert_eq!(
        lark::send_single_message("https://l", &chat("c2c:x"), "x").unwrap_err(),
        "Invalid chat_id format: c2c:x"
    );
    assert_eq!(lark::reaction_url("https://l", "om"), "https://l/open-apis/im/v1/messages/om/reactions");
    assert_eq!(lark::token_url("https://l"), "https://l/open-apis/auth/v3/app_access_token/internal");
    assert_eq!(lark::authorization_header("t"), "Bearer t");
}

#[test]
fn lark_texts_are_sent_in_between() {
    let mut buffers = StreamBuffers::new();
    let a = chat("p2p:a");
    let first = "x".repeat(499);
    assert!(lark::handle_outgoing(&mut buffers, &a, chunk(&first), 1).is_empty());
    assert_eq!(lark::handle_outgoing(&mut buffers, &a, chunk("yz"), 2), vec![format!("{}yz", first)]);
    assert!(lark::handle_outgoing(&mut buffers, &a, chunk("rest"), 3).is_empty());
    assert_eq!(lark::handle_outgoing(&mut buffers, &a, end(), 4), vec!["rest"]);
    assert_eq!(lark::handle_outgoing(&mut buffers, &a, text("t"), 5), vec!["t"]);
    assert_eq!(lark::handle_outgoing(&mut buffers, &a, error("e"), 5), vec!["Error: e"]);
    assert_eq!(lark::handle_outgoing(&mut buffers, &a, mention("b", "m"), 5), vec!["@b m"]);
    assert!(lark::handle_outgoing(&mut buffers, &a, end(), 6).is_empty());
}

#[test]
fn lark_stale_and_surplus_texts_are_flushed() {
    let mut buffers = StreamBuffers::new();
    let _ = buffers.append("stale", "s", 0);
    for i in 0..1002_u64 {
        let _ = buffers.append(&format!("c{}", i), "t", 10 * SECOND + i);
    }
    let (expired, oldest) = lark::check_and_flush_timeouts(&mut buffers, 10 * SECOND + 2000);
    assert_eq!(expired.len(), 1);
    assert_eq!(expired[0].chat_id, chat("stale"));
    let mut gone: Vec<String> = oldest.into_iter().map(|f| f.chat_id.0).collect();
    gone.sort();
    assert_eq!(gone, vec!["c0", "c1"]);
    assert_eq!(buffers.len(), 1000);
}

#[test]
fn lark_channels_start_without_a_token() {
    let channel = lark::LarkChannel::new("id".to_string(), "secret".to_string(), "url".to_string());
    assert_eq!((channel.app_id.as_str(), channel.app_secret.as_str()), ("id", "secret"));
    assert_eq!(channel.base_url, "url");
    assert_eq!(channel.token.get_token(0), None);
}

// ---------------------------------------------------------------------------
// Telegram
// ---------------------------------------------------------------------------

fn edit(action: StreamAction) -> (i32, String, Option<String>) {
    match action {
        StreamAction::Edit { msg_id, text, rest } => (msg_id, text, rest),
        _ => panic!("expected an edit"),
    }
}

#[test]
fn telegram_texts_grow_in_place() {
    let mut states = StreamStates::new();
    match states.handle_stream_chunk("1", "Hel", 0) {
        StreamAction::Send { text } => assert_eq!(text, "Hel"),
        _ => panic!("expected a message"),
    }
    states.sent("1", 7, 0);
    let soon = 500 * MILLISECOND;
    assert!(matches!(states.handle_stream_chunk("1", "lo", soon - 1), StreamAction::Wait));
    let (id, shown, rest) = edit(states.handle_stream_chunk("1", "!", soon));
    assert_eq!((id, shown.as_str(), rest.clone()), (7, "Hello!", None));
    assert!(matches!(states.edited("1", true, rest, soon), StreamAction::Wait));
    assert!(matches!(states.handle_stream_chunk("1", "?", soon + 1), StreamAction::Wait));
    assert_eq!(states.handle_stream_end("1"), Some((7, "Hello!?".to_string())));
    assert_eq!(states.handle_stream_end("1"), None);
}

#[test]
fn telegram_full_messages_give_way() {
    let mut states = StreamStates::new();
    let _ = states.handle_stream_chunk("1", &"a".repeat(4000), 0);
    states.sent("1", 7, 0);
    let (id, shown, rest) = edit(states.handle_stream_chunk("1", &"b".repeat(97), 1));
    assert_eq!((id, shown), (7, "a".repeat(4000)));
    assert_eq!(rest, Some("b".repeat(97)));
    match states.edited("1", true, rest, 2) {
        StreamAction::Send { text } => assert_eq!(text, "b".repeat(97)),
        _ => panic!("expected a message"),
    }
    states.sent("1", 8, 3);
    assert_eq!(states.handle_stream_end("1"), Some((8, "b".repeat(97))));
}

#[test]
fn telegram_failed_sends_and_edits_are_forgiven() {
    let mut states = StreamStates::new();
    let _ = states.handle_stream_chunk("1", "a", 0);
    match states.handle_stream_chunk("1", "b", 1) {
        StreamAction::Send { text } => assert_eq!(text, "ab"),
        _ => panic!("expected a message"),
    }
    states.sent("1", 5, 1);
    let (_, _, rest) = edit(states.handle_stream_chunk("1", &"c".repeat(5000), 2));
    assert!(matches!(states.edited("1", false, rest, 3), StreamAction::Wait));
    assert_eq!(states.handle_stream_end("1"), Some((5, "ab".to_string())));
    states.sent("gone", 1, 1);
    assert!(matches!(states.edited("gone", true, None, 1), StreamAction::Wait));
    assert_eq!(states.handle_stream_end("gone"), None);
}

#[test]
fn telegram_still_texts_are_closed() {
    let mut states = StreamStates::new();
    let _ = states.handle_stream_chunk("1", "a", 0);
    states.sent("1", 5, 0);
    let _ = states.handle_stream_chunk("2", "b", 0);
    let _ = states.handle_stream_chunk("3", "c", 20 * SECOND);
    states.sent("3", 6, 20 * SECOND);
    assert!(telegram::check_and_flush_timeouts(&mut states, 30 * SECOND).is_empty());
    let edits = telegram::check_and_flush_timeouts(&mut states, 30 * SECOND + 1);
    assert_eq!(edits.len(), 1);
    assert_eq!((edits[0].chat_id.0.as_str(), edits[0].msg_id, edits[0].text.as_str()), ("1", 5, "a"));
    assert_eq!(states.handle_stream_end("2"), None);
    assert_eq!(states.handle_stream_end("3"), Some((6, "c".to_string())));
}

#[test]
fn telegram_messages_go_out() {
    let mut states = StreamStates::new();
    let a = chat("12");
    let mut sent = |m: OutgoingMessage| match telegram::handle_outgoing(&mut states, &a, m, 1) {
        OutgoingStep::Send(parts) => parts,
        _ => panic!("expected messages"),
    };
    assert_eq!(sent(text("t")), vec!["t"]);
    assert_eq!(sent(error("e")), vec!["Error: e"]);
    assert_eq!(sent(mention("b", "m")), vec!["@b m"]);
    assert_eq!(sent(text(&"x".repeat(4097))), vec!["x".repeat(4096), "x".to_string()]);
    assert!(matches!(
        telegram::handle_outgoing(&mut states, &a, chunk("c"), 1),
        OutgoingStep::Stream(StreamAction::Send { .. })
    ));
    assert!(matches!(telegram::handle_outgoing(&mut states, &a, end(), 1), OutgoingStep::End(None)));
}

#[test]
fn telegram_chats_have_numbers() {
    assert_eq!(telegram::chat_number(&chat("-1001234")), -1001234);
    assert_eq!(telegram::chat_number(&chat("x")), 0);
    assert_eq!(telegram::chat_number(&chat("9223372036854775808")), 0);
    assert_eq!(telegram::TelegramChannel::new("t".to_string()).token, "t");
}

// ---------------------------------------------------------------------------
// Discord
// ---------------------------------------------------------------------------

#[test]
fn test_discord_adapter_new() {
    let adapter = DiscordAdapter::new("token123".to_string(), None, "test-channel".to_string());
    assert_eq!(adapter.platform(), "discord");
    assert_eq!(adapter.max_message_length(), 2000);
    assert!(adapter.supports_edit());
}

#[test]
fn test_discord_adapter_with_guilds() {
    let guilds = vec!["123456".to_string(), "789012".to_string()];
    let adapter = DiscordAdapter::new("token123".to_string(), Some(guilds), "test-channel".to_string());
    assert!(adapter.guild_ids.is_some());
    assert_eq!(adapter.guild_ids.as_ref().unwrap().len(), 2);
}

fn discord_message(content: &str) -> DiscordMessage {
    DiscordMessage {
        author_id: 1,
        channel_id: 55,
        guild_id: Some(123456),
        mentions: vec![],
        content: content.to_string(),
    }
}

#[test]
fn discord_messages_are_filtered() {
    let open = DiscordAdapter::new("t".to_string(), None, "c".to_string());
    let closed = DiscordAdapter::new("t".to_string(), Some(vec!["123456".to_string()]), "c".to_string());
    let raw = open.message(9, &discord_message("hello")).unwrap();
    assert_eq!(raw.chat_id, chat("55"));
    assert_eq!(raw.text, "hello");
    assert!(raw.is_group);
    assert!(!raw.is_mentioned);
    assert!(closed.message(9, &discord_message("hello")).is_some());
    assert!(closed.message(9, &DiscordMessage { guild_id: Some(5), ..discord_message("x") }).is_none());
    let direct = closed.message(9, &DiscordMessage { guild_id: None, ..discord_message("x") }).unwrap();
    assert!(!direct.is_group);
    assert!(open.message(1, &discord_message("own")).is_none());
    assert!(open.message(9, &discord_message("")).is_none());
}

#[test]
fn discord_mentions_are_taken_out() {
    let adapter = DiscordAdapter::new("t".to_string(), None, "c".to_string());
    let msg = DiscordMessage { mentions: vec![3, 9], ..discord_message("<@9> hi <@!9> <@3>") };
    let raw = adapter.message(9, &msg).unwrap();
    assert_eq!(raw.text, "hi  <@3>");
    assert!(raw.is_mentioned);
    let only = DiscordMessage { mentions: vec![9], ..discord_message(" <@9> ") };
    assert!(adapter.message(9, &only).is_none());
    let unmentioned = adapter.message(9, &discord_message(" <@9> ")).unwrap();
    assert_eq!(unmentioned.text, " <@9> ");
}

#[test]
fn discord_bots_are_mentioned_as_users() {
    let adapter = DiscordAdapter::new("t".to_string(), None, "c".to_string());
    let mut registry = discord::BotRegistry::new();
    assert_eq!(DiscordAdapter::get_bot_user_id(&registry, "other"), None);
    registry.register("other", 77);
    registry.register("other", 78);
    assert_eq!(DiscordAdapter::get_bot_user_id(&registry, "other"), Some(78));
    assert_eq!(DiscordAdapter::get_bot_user_id(&registry, "c"), None);
    let here = Some("other".to_string());
    assert_eq!(adapter.format_mention(&registry, "bot", &here, "hi"), "<@78> hi");
    assert_eq!(adapter.format_mention(&registry, "bot", &Some("x".to_string()), "hi"), "@bot hi");
    assert_eq!(adapter.format_mention(&registry, "bot", &None, "hi"), "@bot hi");
}

#[test]
fn discord_texts_are_split_and_channels_numbered() {
    let adapter = DiscordAdapter::new("t".to_string(), None, "c".to_string());
    assert_eq!(adapter.send_text("hi"), vec!["hi"]);
    let parts = adapter.send_text(&"x".repeat(4001));
    let lengths: Vec<usize> = parts.iter().map(|p| p.len()).collect();
    assert_eq!(lengths, vec![2000, 2000, 1]);
    assert_eq!(discord::parse_channel_id(&chat("55")), Ok(55));
    assert!(discord::parse_channel_id(&chat("-5")).is_err());
    assert!(discord::parse_channel_id(&chat("18446744073709551616")).is_err());
}

// ---------------------------------------------------------------------------
// WeChat
// ---------------------------------------------------------------------------

#[test]
fn test_extract_message_content_text() {
    let msg = WeixinMessage {
        from_user_id: "user123".to_string(),
        message_type: MSG_TYPE_USER,
        context_token: "token".to_string(),
        item_list: vec![MessageItem {
            item_type: MSG_ITEM_TEXT,
            text_item: Some(TextItem {
                text: "Hello world".to_string(),
            }),
            voice_item: None,
            ref_msg: None,
        }],
    };
    assert_eq!(extract_message_content(&msg), "Hello world");
}

#[test]
fn test_extract_message_content_with_ref() {
    let msg = WeixinMessage {
        from_user_id: "user123".to_string(),
        message_type: MSG_TYPE_USER,
        context_token: "token".to_string(),
        item_list: vec![MessageItem {
            item_type: MSG_ITEM_TEXT,
            text_item: Some(TextItem {
                text: "my reply".to_string(),
            }),
            voice_item: None,
            ref_msg: Some(RefMsg {
                title: "original message".to_string(),
            }),
        }],
    };
    let text = extract_message_content(&msg);
    assert!(text.contains("my reply"));
    assert!(text.contains("> original message"));
}

#[test]
fn test_extract_message_content_voice() {
    let msg = WeixinMessage {
        from_user_id: "user123".to_string(),
        message_type: MSG_TYPE_USER,
        context_token: "token".to_string(),
        item_list: vec![MessageItem {
            item_type: MSG_ITEM_VOICE,
            text_item: None,
            voice_item: Some(VoiceItem {
                text: "voice transcription".to_string(),
            }),
            ref_msg: None,
        }],
    };
    assert_eq!(extract_message_content(&msg), "voice transcription");
}

#[test]
fn test_base64_encode() {
    assert_eq!(STANDARD.encode(b"hello"), "aGVsbG8=");
    assert_eq!(STANDARD.encode(b"hello world"), "aGVsbG8gd29ybGQ=");
    // 3 zero bytes -> 4 base64 chars
    assert_eq!(STANDARD.encode(&[0u8, 0u8, 0u8]), "AAAA");
}

#[test]
fn test_wechat_config_default_url() {
    let config = WeChatConfig::new("token123".to_string(), None);
    assert_eq!(config.bot_token, "token123");
    assert_eq!(config.base_url, "https://ilinkai.weixin.qq.com");
}

#[test]
fn test_wechat_config_custom_url() {
    let config = WeChatConfig::new(
        "token123".to_string(),
        Some("https://custom.example.com".to_string()),
    );
    assert_eq!(config.base_url, "https://custom.example.com");
}

#[test]
fn test_wechat_adapter_new() {
    let config = WeChatConfig::new("token123".to_string(), None);
    let adapter = WeChatAdapter::new(config);
    assert_eq!(adapter.platform(), "wechat");
    assert_eq!(adapter.max_message_length(), 2000);
}

#[test]
fn wechat_headers_hold_a_number_in_base64() {
    assert_eq!(uin_header(0), "AAAAAA==");
    assert_eq!(uin_header(0x04030201), STANDARD.encode([1u8, 2, 3, 4]));
    assert_eq!(uin_header(u32::MAX), "/////w==");
    let header = generate_uin_header();
    let bytes = STANDARD.decode(&header).unwrap();
    assert_eq!(bytes.len(), 4);
}

#[test]
fn wechat_client_ids_count_on() {
    let mut counter = 0;
    assert_eq!(generate_client_id(1700000000123, &mut counter), "acpbridge-1700000000123-0");
    assert_eq!(generate_client_id(5, &mut counter), "acpbridge-5-1");
    counter = u64::MAX;
    let _ = generate_client_id(5, &mut counter);
    assert_eq!(counter, 0);
}

fn item(item_type: i64, said: Option<&str>, title: Option<&str>) -> MessageItem {
    MessageItem {
        item_type,
        text_item: said.map(|s| TextItem { text: s.to_string() }),
        voice_item: None,
        ref_msg: title.map(|s| RefMsg { title: s.to_string() }),
    }
}

fn weixin(from: &str, message_type: i64, token: &str, items: Vec<MessageItem>) -> WeixinMessage {
    WeixinMessage {
        from_user_id: from.to_string(),
        message_type,
        context_token: token.to_string(),
        item_list: items,
    }
}

#[test]
fn wechat_parts_are_lines() {
    let msg = weixin(
        "u",
        1,
        "t",
        vec![
            item(1, Some("  a "), Some(" q ")),
            item(1, Some("  "), Some("  ")),
            item(2, Some("image"), Some("kept")),
            item(3, Some("no sound"), None),
            item(1, None, None),
        ],
    );
    assert_eq!(extract_message_content(&msg), "a\n> q\n> kept");
}

#[test]
fn wechat_polls_go_on_from_the_last_answer() {
    let answer = |ret: Option<i64>, errcode: Option<i64>, buf: Option<&str>| {
        PollOutcome::Updates(GetUpdatesResponse {
            ret,
            errcode,
            msgs: vec![weixin("u", 1, "t", vec![])],
            get_updates_buf: buf.map(|s| s.to_string()),
        })
    };
    let mut polls = PollLoop::new();
    assert_eq!(polls.request(), None);
    assert!(matches!(polls.on_poll(PollOutcome::Failed), PollStep::Pause { seconds: 5 }));
    assert!(matches!(polls.on_poll(answer(Some(0), None, Some("b1"))), PollStep::Process(v) if v.len() == 1));
    assert_eq!(polls.request(), Some("b1".to_string()));
    assert!(matches!(polls.on_poll(answer(None, Some(0), None)), PollStep::Process(_)));
    assert_eq!(polls.request(), Some("b1".to_string()));
    assert!(matches!(polls.on_poll(answer(Some(-1), None, Some("b2"))), PollStep::Pause { seconds: 5 }));
    assert!(matches!(polls.on_poll(answer(Some(0), Some(3), Some("b2"))), PollStep::Pause { seconds: 5 }));
    assert_eq!(polls.request(), Some("b1".to_string()));
}

#[test]
fn wechat_users_are_answered_under_their_token() {
    let mut adapter = WeChatAdapter::new(WeChatConfig::new("bt".to_string(), Some("https://w".to_string())));
    let mut counter = 3;
    assert_eq!(
        adapter.send_text(&chat("u"), "hi", 1, &mut counter).unwrap_err(),
        "context_token is required for sendMessage but missing for user u"
    );
    assert_eq!(counter, 3);
    assert!(adapter.process_incoming_message(&weixin("u", 2, "bot", vec![item(1, Some("x"), None)]), 0).is_none());
    assert!(adapter.send_text(&chat("u"), "hi", 1, &mut counter).is_err());
    // The token of a message without text counts too.
    assert!(adapter.process_incoming_message(&weixin("u", 1, "ct", vec![]), 0).is_none());
    let received = adapter.process_incoming_message(&weixin("u", 1, "", vec![item(1, Some("hey"), None)]), 0).unwrap();
    assert_eq!(received.raw.chat_id, chat("u"));
    assert_eq!(received.raw.text, "hey");
    assert!(!received.raw.is_group && !received.raw.is_mentioned);
    assert!(matches!(received.typing, TypingStep::Fetch { context_token } if context_token == "ct"));
    let request = adapter.send_text(&chat("u"), &"x".repeat(2001), 1, &mut counter).unwrap();
    assert_eq!(request.channel_version, "acpbridge-0.1.0");
    assert_eq!(request.msg.to_user_id, "u");
    assert_eq!(request.msg.from_user_id, "");
    assert_eq!(request.msg.client_id, "acpbridge-1-3");
    assert_eq!(request.msg.message_type, 2);
    assert_eq!(request.msg.message_state, 2);
    assert_eq!(request.msg.context_token, "ct");
    assert_eq!(request.msg.item_list.len(), 1);
    assert_eq!(request.msg.item_list[0].item_type, 1);
    let sent = request.msg.item_list[0].text_item.as_ref().unwrap();
    assert_eq!(sent.text, format!("{}...", "x".repeat(1997)));
    assert_eq!(adapter.endpoint("sendmessage"), "https://w/ilink/bot/sendmessage");
    assert_eq!(adapter.authorization(), "Bearer bt");
    assert_eq!(adapter.config().bot_token, "bt");
    assert_eq!(adapter.format_mention("bot", &None, "hi"), "@bot hi");
    assert_eq!(wechat::current_version(), "acpbridge-0.1.0");
}

#[test]
fn wechat_tickets_last_a_day() {
    let mut adapter = WeChatAdapter::new(WeChatConfig::new("bt".to_string(), None));
    assert!(matches!(adapter.send_typing_with_ticket("u", 0), TypingStep::Refuse));
    assert_eq!(
        adapter.ticket_fetched("u", None, 0).unwrap_err(),
        "No typing_ticket in getConfig response"
    );
    assert!(adapter.ticket_fetched("u", Some(String::new()), 0).is_err());
    assert!(matches!(adapter.send_typing_with_ticket("u", 0), TypingStep::Refuse));
    assert_eq!(adapter.ticket_fetched("u", Some("tk".to_string()), 10).unwrap(), "tk");
    let day = 24 * 60 * 60 * SECOND;
    assert!(matches!(adapter.send_typing_with_ticket("u", 9 + day), TypingStep::Send { ticket } if ticket == "tk"));
    assert!(matches!(adapter.send_typing_with_ticket("u", 10 + day), TypingStep::Refuse));
    assert!(matches!(adapter.send_typing_with_ticket("v", 10), TypingStep::Refuse));
}

#[test]
fn waiting_callers_share_a_token() {
    let mut cache = TokenCache::new();
    assert_eq!(cache.get_token(0), None);
    assert_eq!(cache.fetched(Err("no".to_string()), 0), Err("no".to_string()));
    assert_eq!(cache.get_token(0), None);
    assert_eq!(cache.fetched(Ok(("a".to_string(), 301)), 5), Ok("a".to_string()));
    assert_eq!(cache.get_token(5), Some("a".to_string()));
    assert_eq!(cache.get_token(4 + SECOND), Some("a".to_string()));
    assert_eq!(cache.get_token(5 + SECOND), None);
    assert!(cache.fetched(Err("no".to_string()), 6).is_err());
    assert_eq!(cache.get_token(6), Some("a".to_string()));
}

#[test]
fn lark_streams_are_sent_whole() {
    let mut buffers = StreamBuffers::new();
    let (x, y) = (chat("p2p:x"), chat("p2p:y"));
    let mut sent: Vec<String> = Vec::new();
    let mut all = String::new();
    for i in 0..7u64 {
        let piece = format!("{i}").repeat(90);
        all.push_str(&piece);
        sent.extend(lark::handle_outgoing(&mut buffers, &x, chunk(&piece), i * SECOND));
        let _ = lark::handle_outgoing(&mut buffers, &y, chunk("noise"), i * SECOND);
        let (expired, oldest) = lark::check_and_flush_timeouts(&mut buffers, i * SECOND + 1);
        assert!(expired.is_empty() && oldest.is_empty());
    }
    assert_eq!(sent.len(), 1);
    assert_eq!(sent[0].chars().count(), 540);
    sent.extend(lark::handle_outgoing(&mut buffers, &x, end(), 8 * SECOND));
    assert_eq!(sent.concat(), all);
    assert_eq!(buffers.len(), 1);
}

#[test]
fn lark_streams_that_stand_still_lose_nothing() {
    let mut buffers = StreamBuffers::new();
    let x = chat("p2p:x");
    assert!(lark::handle_outgoing(&mut buffers, &x, chunk("one "), 0).is_empty());
    let (expired, _) = lark::check_and_flush_timeouts(&mut buffers, 11 * SECOND);
    let mut sent: Vec<String> = expired.into_iter().map(|f| f.text).collect();
    assert!(lark::handle_outgoing(&mut buffers, &x, chunk("two"), 12 * SECOND).is_empty());
    sent.extend(lark::handle_outgoing(&mut buffers, &x, end(), 13 * SECOND));
    assert_eq!(sent, vec!["one ", "two"]);
}

#[test]
fn wechat_parts_speak_for_themselves() {
    let item = |s: &str| MessageItem {
        item_type: MSG_ITEM_TEXT,
        text_item: Some(TextItem { text: s.to_string() }),
        voice_item: None,
        ref_msg: None,
    };
    let says = |items: Vec<MessageItem>| {
        extract_message_content(&WeixinMessage {
            from_user_id: "u".to_string(),
            message_type: MSG_TYPE_USER,
            context_token: String::new(),
            item_list: items,
        })
    };
    assert_eq!(says(vec![item("a"), item(" "), item("b")]), "a\nb");
    assert_eq!(says(vec![item("a"), item(" ")]), "a");
    assert_eq!(says(vec![item("b")]), "b");
}
