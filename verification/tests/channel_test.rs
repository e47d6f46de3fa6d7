use acpbridge::channel::{
    parse_incoming, raw_to_ingress, should_dispatch_message, split_text, ChatId, IncomingContent,
    IncomingMessage, OutgoingContent, OutgoingMessage, RawIncoming,
};
use acpbridge::message::IngressContent;

#[test]
fn test_chat_id_clone() {
    let chat_id = ChatId("12345".to_string());
    let cloned = chat_id.clone();
    assert_eq!(chat_id, cloned);
}

#[test]
fn test_chat_id_debug() {
    let chat_id = ChatId("999".to_string());
    let debug_str = format!("{:?}", chat_id);
    assert!(debug_str.contains("999"));
}

#[test]
fn test_incoming_message_text() {
    let msg = IncomingMessage::text("Hello".to_string());
    match msg.content {
        IncomingContent::Text(t) => assert_eq!(t, "Hello"),
        _ => panic!("Expected Text content"),
    }
}

#[test]
fn test_incoming_message_command() {
    let msg = IncomingMessage::command("model".to_string(), Some("gpt-4".to_string()));
    match msg.content {
        IncomingContent::Command { name, args } => {
            assert_eq!(name, "model");
            assert_eq!(args, Some("gpt-4".to_string()));
        }
        _ => panic!("Expected Command content"),
    }
}

#[test]
fn test_incoming_message_command_no_args() {
    let msg = IncomingMessage::command("help".to_string(), None);
    match msg.content {
        IncomingContent::Command { name, args } => {
            assert_eq!(name, "help");
            assert!(args.is_none());
        }
        _ => panic!("Expected Command content"),
    }
}

#[test]
fn test_outgoing_message_debug() {
    let msg = OutgoingMessage {
        content: OutgoingContent::Text("test".to_string()),
    };
    let debug_str = format!("{:?}", msg);
    assert!(debug_str.contains("test"));
}

#[test]
fn test_incoming_content_clone() {
    let content = IncomingContent::Text("clone me".to_string());
    let cloned = content.clone();
    match (content, cloned) {
        (IncomingContent::Text(a), IncomingContent::Text(b)) => {
            assert_eq!(a, b);
        }
        _ => panic!("Clone should preserve content type"),
    }
}

#[test]
fn test_outgoing_content_clone() {
    // Test Text variant
    let content = OutgoingContent::Text("hello".to_string());
    let cloned = content.clone();
    match (content, cloned) {
        (OutgoingContent::Text(a), OutgoingContent::Text(b)) => {
            assert_eq!(a, b);
        }
        _ => panic!("Clone should preserve content type for Text"),
    }

    // Test StreamChunk variant
    let content = OutgoingContent::StreamChunk("chunk".to_string());
    let cloned = content.clone();
    match (content, cloned) {
        (OutgoingContent::StreamChunk(a), OutgoingContent::StreamChunk(b)) => {
            assert_eq!(a, b);
        }
        _ => panic!("Clone should preserve content type for StreamChunk"),
    }

    // Test StreamEnd variant
    let content = OutgoingContent::StreamEnd;
    let cloned = content.clone();
    match (content, cloned) {
        (OutgoingContent::StreamEnd, OutgoingContent::StreamEnd) => {}
        _ => panic!("Clone should preserve content type for StreamEnd"),
    }

    // Test Error variant
    let content = OutgoingContent::Error("error".to_string());
    let cloned = content.clone();
    match (content, cloned) {
        (OutgoingContent::Error(a), OutgoingContent::Error(b)) => {
            assert_eq!(a, b);
        }
        _ => panic!("Clone should preserve content type for Error"),
    }
}

#[test]
fn test_parse_incoming_text() {
    let incoming = parse_incoming("hello");
    match incoming.content {
        IncomingContent::Text(text) => assert_eq!(text, "hello"),
        _ => panic!("Expected text"),
    }
}

#[test]
fn test_parse_incoming_command() {
    let incoming = parse_incoming("/mode fast");
    match incoming.content {
        IncomingContent::Command { name, args } => {
            assert_eq!(name, "mode");
            assert_eq!(args, Some("fast".to_string()));
        }
        _ => panic!("Expected command"),
    }
}

fn command(text: &str) -> (String, Option<String>) {
    match parse_incoming(text).content {
        IncomingContent::Command { name, args } => (name, args),
        _ => panic!("expected a command"),
    }
}

#[test]
fn command_names_are_lowered_and_arguments_kept() {
    assert_eq!(command("  /MODEL  Gpt-4  "), ("model".to_string(), Some(" Gpt-4".to_string())));
    assert_eq!(command("/"), (String::new(), None));
    assert_eq!(command("/new"), ("new".to_string(), None));
    assert_eq!(command("/ÄÖ x"), ("äö".to_string(), Some("x".to_string())));
    assert_eq!(command("/config a\tb c"), ("config".to_string(), Some("a\tb c".to_string())));
}

#[test]
fn texts_lose_the_white_space_around_them() {
    match parse_incoming(" \n what / is this \u{3000}").content {
        IncomingContent::Text(text) => assert_eq!(text, "what / is this"),
        _ => panic!("expected text"),
    }
    match parse_incoming("").content {
        IncomingContent::Text(text) => assert_eq!(text, ""),
        _ => panic!("expected text"),
    }
}

#[test]
fn unmentioned_group_messages_can_be_dropped() {
    for mention_only in [false, true] {
        for is_group in [false, true] {
            for is_mentioned in [false, true] {
                let expected = !(mention_only && is_group && !is_mentioned);
                assert_eq!(should_dispatch_message(mention_only, is_group, is_mentioned), expected);
            }
        }
    }
    let raw = RawIncoming {
        chat_id: ChatId("7".to_string()),
        text: "/NEW".to_string(),
        is_group: true,
        is_mentioned: false,
    };
    assert!(raw_to_ingress("tg", true, raw.clone()).is_none());
    let message = raw_to_ingress("tg", false, raw).unwrap();
    assert_eq!(message.channel_name, "tg");
    assert_eq!(message.chat_id, ChatId("7".to_string()));
    match message.content {
        IngressContent::Command { name, args } => {
            assert_eq!(name, "new");
            assert!(args.is_none());
        }
        _ => panic!("expected a command"),
    }
}

#[test]
fn long_texts_are_cut_by_characters_once_they_have_too_many_bytes() {
    // Four characters, but eight bytes.
    assert_eq!(split_text("äöüß", 7), vec!["äöüß".to_string()]);
    assert_eq!(split_text("äöüßa", 4), vec!["äöüß".to_string(), "a".to_string()]);
    assert_eq!(split_text("abcd", 4), vec!["abcd".to_string()]);
    assert_eq!(split_text("", 4), vec!["".to_string()]);
}
