//! Lark: the messages of users, and the messages to them.

use super::buffers::{
    appended, are_texts_of, flushed_views, is_eviction, stale, stale_set, text_of, BufferView,
    Flushed, FlushedView, StreamBuffers,
};
use super::token::TokenCache;
use super::{
    command_text, error_text, incoming_of, is_lowered, parse_incoming, plain_mention, ChatId, OutgoingContent,
    OutgoingMessage, ReplyView,
};
use crate::clock::SECOND;
use crate::message::{IngressContent, IngressMessage};
use crate::number::{decimal, to_decimal};
use crate::split::{
    after_prefix, cat, cat4, cat5, is_subsequence, joined, lemma_joined_push,
    lemma_subsequence_skip, lemma_subsequence_take, lemma_subsequence_transitive, opt_text, pieces,
    pieces_make_up_the_text, same, split_pieces, strip_prefix, texts,
};
use crate::text::{
    is_white, lemma_trim_end_behind, lemma_trim_end_props, lemma_trim_end_visible,
    lemma_trim_start_len, lemma_trim_unchanged, lemma_trim_white_before, trim, trim_end, trim_start,
    trimmed, white,
};
use vstd::prelude::*;
use vstd::string::*;

verus! {

/// A channel on Lark, with what it needs to fetch its tokens.
#[derive(Debug)]
pub struct LarkChannel {
    pub app_id: String,
    pub app_secret: String,
    pub base_url: String,
    pub token: TokenCache,
}

impl LarkChannel {
    /// A channel that has no token yet.
    pub fn new(app_id: String, app_secret: String, base_url: String) -> (r: Self)
        ensures
            r.app_id == app_id,
            r.app_secret == app_secret,
            r.base_url == base_url,
            r.token@ is None,
    {
        LarkChannel { app_id, app_secret, base_url, token: TokenCache::new() }
    }
}

// ---------------------------------------------------------------------------
// Texts without tags and mentions
// ---------------------------------------------------------------------------

/// Where one is while reading a text.
pub struct Scan {
    /// Inside of a tag.
    pub in_tag: bool,
    /// Behind an at sign that belongs to a tag, up to the next white space.
    pub after_at: bool,
    /// Directly behind a tag.
    pub behind_tag: bool,
}

/// Where one is after one more character, and whether the character counts.
pub open spec fn scan(s: Scan, c: char) -> (Scan, bool) {
    if c == '<' {
        (Scan { in_tag: true, behind_tag: false, ..s }, false)
    } else if c == '>' {
        (Scan { in_tag: false, behind_tag: true, ..s }, false)
    } else if s.in_tag {
        (Scan { after_at: s.after_at || c == '@', ..s }, false)
    } else if s.behind_tag && c == '@' {
        (Scan { after_at: true, behind_tag: false, ..s }, false)
    } else if s.after_at {
        (Scan { after_at: !white(c), behind_tag: false, ..s }, false)
    } else {
        (Scan { behind_tag: false, ..s }, true)
    }
}

/// The characters of a text that count, from a place on.
pub open spec fn counted(s: Scan, text: Seq<char>) -> Seq<char>
    decreases text.len(),
{
    if text.len() == 0 {
        Seq::empty()
    } else {
        let (next, counts) = scan(s, text[0]);
        if counts {
            seq![text[0]] + counted(next, text.skip(1))
        } else {
            counted(next, text.skip(1))
        }
    }
}

/// Where reading begins.
pub open spec fn scan_start() -> Scan {
    Scan { in_tag: false, after_at: false, behind_tag: false }
}

/// A text without tags, and without the names that tags mention.
pub open spec fn normalized(content: Seq<char>) -> Seq<char> {
    trim(counted(scan_start(), trim(content)))
}

/// Takes the tags out of a text, with the names that they mention.
pub fn normalize_content(content: &str) -> (r: String)
    ensures
        r@ == normalized(content@),
{
    let t = trimmed(content);
    let cs = crate::text::chars_of(t);
    let mut result = String::new();
    let mut in_tag = false;
    let mut after_at = false;
    let mut behind_tag = false;
    let mut i: usize = 0;
    proof {
        assert(cs@.skip(0) == cs@);
    }
    while i < cs.len()
        invariant
            i <= cs@.len(),
            result@ + counted(Scan { in_tag, after_at, behind_tag }, cs@.skip(i as int)) == counted(
                scan_start(),
                cs@,
            ),
        decreases cs@.len() - i,
    {
        let c = cs[i];
        let ghost before = result@;
        let ghost here = Scan { in_tag, after_at, behind_tag };
        let ghost rest = cs@.skip(i as int);
        proof {
            assert(rest[0] == c);
            assert(rest.skip(1) == cs@.skip(i + 1));
        }
        if c == '<' {
            in_tag = true;
            behind_tag = false;
        } else if c == '>' {
            in_tag = false;
            behind_tag = true;
        } else if in_tag {
            if c == '@' {
                after_at = true;
            }
        } else if behind_tag && c == '@' {
            after_at = true;
            behind_tag = false;
        } else if after_at {
            behind_tag = false;
            if is_white(c) {
                after_at = false;
            }
        } else {
            behind_tag = false;
            result.push(c);
            proof {
                assert(before + (seq![c] + counted(scan(here, c).0, rest.skip(1))) == result@
                    + counted(scan(here, c).0, rest.skip(1)));
            }
        }
        i += 1;
    }
    proof {
        assert(result@ + counted(Scan { in_tag, after_at, behind_tag }, cs@.skip(i as int))
            == result@);
    }
    trimmed(result.as_str()).to_string()
}

// ---------------------------------------------------------------------------
// Messages of users
// ---------------------------------------------------------------------------

/// A message of a user, as the platform delivers it.
#[derive(Debug)]
pub struct MessageEvent {
    pub sender_open_id: String,
    pub message_id: String,
    pub message_type: String,
    /// The text of the message, or why it cannot be read.
    pub text: Result<String, String>,
    pub chat_type: String,
    pub message_chat_id: Option<String>,
    pub chat_id: Option<String>,
}

/// An event of the platform.
#[derive(Debug)]
pub struct EventEnvelope {
    pub event_type: String,
    /// The message that the event carries, or why it cannot be read.
    pub event: Option<Result<MessageEvent, String>>,
}

/// Why an event could not be taken.
#[derive(Debug, Clone)]
pub enum EventError {
    MissingData,
    UnreadableEvent(String),
    UnreadableContent(String),
    MissingChatId,
}

/// How such an error reads.
pub open spec fn event_error_text(e: EventError) -> Seq<char> {
    match e {
        EventError::MissingData => "Missing event data"@,
        EventError::UnreadableEvent(_) => "Failed to parse message event"@,
        EventError::UnreadableContent(_) => "Failed to parse message content"@,
        EventError::MissingChatId => "Missing chat_id for group message"@,
    }
}

impl EventError {
    /// The error in words.
    pub fn message(&self) -> (r: String)
        ensures
            r@ == event_error_text(*self),
    {
        match self {
            EventError::MissingData => "Missing event data".to_string(),
            EventError::UnreadableEvent(_) => "Failed to parse message event".to_string(),
            EventError::UnreadableContent(_) => "Failed to parse message content".to_string(),
            EventError::MissingChatId => "Missing chat_id for group message".to_string(),
        }
    }
}

/// What an event leads to.
#[derive(Debug)]
pub enum EventStep {
    /// Nothing.
    Ignore,
    /// A user's message, which gets a sign that it was seen.
    Message { message: IngressMessage, react_to: String },
    Failed(EventError),
}

/// The chat of a message: the user's own, or the group's, by the chat or else by
/// the message itself.
pub open spec fn chat_of_event(e: MessageEvent) -> Option<Seq<char>> {
    if e.chat_type@ == "p2p"@ {
        Some("p2p:"@ + e.sender_open_id@)
    } else {
        match (opt_text(e.chat_id), opt_text(e.message_chat_id)) {
            (Some(id), _) => Some("group:"@ + id),
            (None, Some(id)) => Some("group:"@ + id),
            (None, None) => None,
        }
    }
}

/// What a message event leads to.
pub open spec fn is_step_of(e: MessageEvent, channel: Seq<char>, step: EventStep) -> bool {
    if e.message_type@ != "text"@ {
        step is Ignore
    } else {
        match e.text {
            Err(why) => step matches EventStep::Failed(EventError::UnreadableContent(w)) && w@
                == why@,
            Ok(text) => if e.chat_type@ != "p2p"@ && e.chat_type@ != "group"@ {
                step is Ignore
            } else {
                match chat_of_event(e) {
                    None => step matches EventStep::Failed(EventError::MissingChatId),
                    Some(chat) => {
                        &&& step matches EventStep::Message { message, react_to }
                        &&& react_to@ == e.message_id@
                        &&& message.channel_name@ == channel
                        &&& message.chat_id@ == chat
                        &&& message.content@ == incoming_of(normalized(text@))
                        &&& is_lowered(message.content@, command_text(normalized(text@)))
                    },
                }
            },
        }
    }
}

/// Takes an event of the platform for a channel: the message that it carries, if
/// it is a text.
pub fn handle_event(envelope: &EventEnvelope, channel_name: &str) -> (r: EventStep)
    ensures
        if envelope.event_type@ != "im.message.receive_v1"@ {
            r is Ignore
        } else {
            match envelope.event {
                None => r matches EventStep::Failed(EventError::MissingData),
                Some(Err(why)) => r matches EventStep::Failed(EventError::UnreadableEvent(w)) && w@
                    == why@,
                Some(Ok(e)) => is_step_of(e, channel_name@, r),
            }
        },
{
    if !same(envelope.event_type.as_str(), "im.message.receive_v1") {
        return EventStep::Ignore;
    }
    let e = match &envelope.event {
        None => {
            return EventStep::Failed(EventError::MissingData);
        },
        Some(event) => match event {
            Ok(e) => e,
            Err(why) => {
                return EventStep::Failed(EventError::UnreadableEvent(why.clone()));
            },
        },
    };
    if !same(e.message_type.as_str(), "text") {
        return EventStep::Ignore;
    }
    let text = match &e.text {
        Ok(text) => text,
        Err(why) => {
            return EventStep::Failed(EventError::UnreadableContent(why.clone()));
        },
    };
    let chat = if same(e.chat_type.as_str(), "p2p") {
        cat("p2p:", e.sender_open_id.as_str())
    } else if same(e.chat_type.as_str(), "group") {
        match &e.chat_id {
            Some(id) => cat("group:", id.as_str()),
            None => match &e.message_chat_id {
                Some(id) => cat("group:", id.as_str()),
                None => {
                    return EventStep::Failed(EventError::MissingChatId);
                },
            },
        }
    } else {
        return EventStep::Ignore;
    };
    let content = normalize_content(text.as_str());
    let incoming = parse_incoming(content.as_str());
    let message = IngressMessage {
        channel_name: channel_name.to_string(),
        chat_id: ChatId(chat),
        content: IngressContent::from(incoming),
    };
    EventStep::Message { message, react_to: e.message_id.clone() }
}

// ---------------------------------------------------------------------------
// Messages to users
// ---------------------------------------------------------------------------

/// How many characters a message may have.
pub const MAX_MESSAGE_LENGTH: usize = 4000;

/// How many characters of a text that is still arriving are sent at once.
pub const FLUSH_LENGTH: usize = 500;

/// How long a text may stand incomplete before it is sent as it is.
pub const STREAM_TIMEOUT: u64 = 10 * SECOND;

/// How many texts may be incomplete.
pub const MAX_BUFFER_COUNT: usize = 1000;

/// The heading of a part of a long message.
pub open spec fn part_heading(number: nat, total: nat) -> Seq<char> {
    "[Part "@ + decimal(number) + "/"@ + decimal(total) + "]\n"@
}

/// The messages that a text is sent in: one, if it is short enough, and else as
/// many as it needs, each with a heading.
pub open spec fn message_parts(content: Seq<char>) -> Seq<Seq<char>> {
    let parts = pieces(content, MAX_MESSAGE_LENGTH as nat);
    if content.len() <= MAX_MESSAGE_LENGTH {
        seq![content]
    } else {
        Seq::new(parts.len(), |i: int| part_heading((i + 1) as nat, parts.len()) + parts[i])
    }
}

/// Splits a text into the messages that it is sent in.
pub fn send_long_message(content: &str) -> (r: Vec<String>)
    ensures
        texts(r@) == message_parts(content@),
{
    let mut r: Vec<String> = Vec::new();
    if content.unicode_len() <= MAX_MESSAGE_LENGTH {
        r.push(content.to_string());
        assert(texts(r@) =~= seq![content@]);
        return r;
    }
    let parts = split_pieces(content, MAX_MESSAGE_LENGTH);
    let total = to_decimal(parts.len() as u64);
    let ghost all = message_parts(content@);
    let mut i: usize = 0;
    proof {
        assert(texts(r@) =~= all.take(0));
    }
    while i < parts.len()
        invariant
            i <= parts@.len(),
            content@.len() > MAX_MESSAGE_LENGTH,
            texts(parts@) == pieces(content@, MAX_MESSAGE_LENGTH as nat),
            total@ == decimal(parts@.len()),
            all == message_parts(content@),
            texts(r@) == all.take(i as int),
        decreases parts@.len() - i,
    {
        let number = to_decimal(i as u64 + 1);
        let heading = cat5("[Part ", number.as_str(), "/", total.as_str(), "]\n");
        let part = cat(heading.as_str(), parts[i].as_str());
        r.push(part);
        proof {
            assert(part@ == all[i as int]) by {
                assert(texts(parts@)[i as int] == parts@[i as int]@);
            }
            assert(texts(r@) =~= all.take(i as int).push(part@));
            assert(all.take(i + 1) =~= all.take(i as int).push(all[i as int]));
        }
        i += 1;
    }
    proof {
        assert(all.take(parts@.len() as int) =~= all);
    }
    r
}

/// A hexadecimal digit.
pub open spec fn hex_digit(d: u32) -> char {
    if d < 10 {
        (('0' as u32 + d) as u32) as char
    } else {
        (('a' as u32 + d - 10) as u32) as char
    }
}

/// A character in a JSON string: quotation marks, backslashes and control
/// characters are escaped, and everything else stands as it is.
pub open spec fn json_char(c: char) -> Seq<char> {
    if c == '"' {
        seq!['\\', '"']
    } else if c == '\\' {
        seq!['\\', '\\']
    } else if c == '\u{8}' {
        seq!['\\', 'b']
    } else if c == '\t' {
        seq!['\\', 't']
    } else if c == '\n' {
        seq!['\\', 'n']
    } else if c == '\u{c}' {
        seq!['\\', 'f']
    } else if c == '\r' {
        seq!['\\', 'r']
    } else if c >= ' ' {
        seq![c]
    } else {
        seq!['\\', 'u', '0', '0', hex_digit(c as u32 / 16), hex_digit(c as u32 % 16)]
    }
}

/// The characters of a text in a JSON string.
pub open spec fn json_chars(s: Seq<char>) -> Seq<char>
    decreases s.len(),
{
    if s.len() == 0 {
        Seq::empty()
    } else {
        json_chars(s.drop_last()) + json_char(s.last())
    }
}

/// The JSON of an object with one text under one key, without white space.
pub open spec fn json_entry(key: Seq<char>, value: Seq<char>) -> Seq<char> {
    "{\""@ + json_chars(key) + "\":\""@ + json_chars(value) + "\"}"@
}

/// `serde_json::Value::to_string`, for an object with one text under one key:
/// the compact JSON of the object.
#[verifier::external_body]
fn to_json_entry(key: &str, value: &str) -> (r: String)
    ensures
        r@ == json_entry(key@, value@),
{
    let mut object = serde_json::Map::new();
    object.insert(key.to_string(), serde_json::Value::String(value.to_string()));
    serde_json::Value::Object(object).to_string()
}

/// A request that sends a message.
#[derive(Debug, Clone)]
pub struct SendPlan {
    pub url: String,
    pub receive_id_type: String,
    pub receive_id: String,
    pub content: String,
}

/// What a chat is addressed by: the kind of its address, and the address.
pub open spec fn recipient(chat: Seq<char>) -> Option<(Seq<char>, Seq<char>)> {
    match (after_prefix(chat, "p2p:"@), after_prefix(chat, "group:"@)) {
        (Some(id), _) => Some(("open_id"@, id)),
        (None, Some(id)) => Some(("chat_id"@, id)),
        (None, None) => None,
    }
}

/// Plans how a message is sent to a chat, from its content as the platform wants
/// it.
pub fn plan_message(base_url: &str, chat_id: &ChatId, content: String) -> (r: Result<
    SendPlan,
    String,
>)
    ensures
        match r {
            Ok(plan) => {
                &&& recipient(chat_id@) == Some((plan.receive_id_type@, plan.receive_id@))
                &&& plan.url@ == base_url@ + "/open-apis/im/v1/messages"@
                &&& plan.content == content
            },
            Err(e) => recipient(chat_id@) is None && e@ == "Invalid chat_id format: "@ + chat_id@,
        },
{
    let (receive_id_type, receive_id) = match strip_prefix(chat_id.0.as_str(), "p2p:") {
        Some(id) => ("open_id".to_string(), id),
        None => match strip_prefix(chat_id.0.as_str(), "group:") {
            Some(id) => ("chat_id".to_string(), id),
            None => {
                return Err(cat("Invalid chat_id format: ", chat_id.0.as_str()));
            },
        },
    };
    Ok(
        SendPlan {
            url: cat(base_url, "/open-apis/im/v1/messages"),
            receive_id_type,
            receive_id,
            content,
        },
    )
}

/// Plans how a text of one message is sent to a chat.
pub fn send_single_message(base_url: &str, chat_id: &ChatId, content: &str) -> (r: Result<
    SendPlan,
    String,
>)
    ensures
        match r {
            Ok(plan) => {
                &&& recipient(chat_id@) == Some((plan.receive_id_type@, plan.receive_id@))
                &&& plan.url@ == base_url@ + "/open-apis/im/v1/messages"@
                &&& plan.content@ == json_entry("text"@, content@)
            },
            Err(e) => recipient(chat_id@) is None && e@ == "Invalid chat_id format: "@ + chat_id@,
        },
{
    plan_message(base_url, chat_id, to_json_entry("text", content))
}

/// Where a sign that a message was seen is sent.
pub fn reaction_url(base_url: &str, message_id: &str) -> (r: String)
    ensures
        r@ == base_url@ + "/open-apis/im/v1/messages/"@ + message_id@ + "/reactions"@,
{
    cat4(base_url, "/open-apis/im/v1/messages/", message_id, "/reactions")
}

/// Where a token is fetched.
pub fn token_url(base_url: &str) -> (r: String)
    ensures
        r@ == base_url@ + "/open-apis/auth/v3/app_access_token/internal"@,
{
    cat(base_url, "/open-apis/auth/v3/app_access_token/internal")
}

/// The value of the header that presents a token.
pub fn authorization_header(token: &str) -> (r: String)
    ensures
        r@ == "Bearer "@ + token@,
{
    cat("Bearer ", token)
}

/// What is to be sent to a chat at once when something goes out to its user. A
/// text that is still arriving is sent as soon as enough of it is there.
pub open spec fn sent_now(
    m: Map<Seq<char>, BufferView>,
    chat: Seq<char>,
    content: ReplyView,
) -> Seq<Seq<char>> {
    match content {
        ReplyView::Text(text) => seq![text],
        ReplyView::StreamChunk(text) => if (text_of(m, chat) + text).len() >= FLUSH_LENGTH {
            seq![text_of(m, chat) + text]
        } else {
            Seq::empty()
        },
        ReplyView::StreamEnd => if text_of(m, chat).len() > 0 {
            seq![text_of(m, chat)]
        } else {
            Seq::empty()
        },
        ReplyView::Error(error) => seq![error_text(error)],
        ReplyView::Mention { target_bot, target_channel_name, message } => seq![
            plain_mention(target_bot, message),
        ],
    }
}

/// What is kept when something goes out to a user.
pub open spec fn kept_after(
    m: Map<Seq<char>, BufferView>,
    chat: Seq<char>,
    content: ReplyView,
    now: u64,
) -> Map<Seq<char>, BufferView> {
    match content {
        ReplyView::StreamChunk(text) => if (text_of(m, chat) + text).len() >= FLUSH_LENGTH {
            m.remove(chat)
        } else {
            appended(m, chat, text, now)
        },
        ReplyView::StreamEnd => m.remove(chat),
        _ => m,
    }
}

/// Takes something that goes out to a user: what is to be sent at once.
pub fn handle_outgoing(
    buffers: &mut StreamBuffers,
    chat_id: &ChatId,
    msg: OutgoingMessage,
    now: u64,
) -> (r: Vec<String>)
    requires
        old(buffers).wf(),
    ensures
        final(buffers).wf(),
        texts(r@) == sent_now(old(buffers)@, chat_id@, msg@),
        final(buffers)@ == kept_after(old(buffers)@, chat_id@, msg@, now),
{
    let mut r: Vec<String> = Vec::new();
    match msg.content {
        OutgoingContent::Text(text) => {
            r.push(text);
        },
        OutgoingContent::StreamChunk(text) => {
            let count: usize = buffers.append(chat_id.0.as_str(), text.as_str(), now);
            if count >= FLUSH_LENGTH {
                let r = buffers.finish(chat_id.0.as_str());
                proof {
                    assert(appended(old(buffers)@, chat_id@, text@, now).remove(chat_id@)
                        =~= old(buffers)@.remove(chat_id@));
                }
                return r;
            }
        },
        OutgoingContent::StreamEnd => {
            return buffers.finish(chat_id.0.as_str());
        },
        OutgoingContent::Error(error) => {
            r.push(cat("Error: ", error.as_str()));
        },
        OutgoingContent::Mention { target_bot, target_channel_name: _, message } => {
            r.push(cat4("@", target_bot.as_str(), " ", message.as_str()));
        },
    }
    assert(texts(r@) =~= sent_now(old(buffers)@, chat_id@, msg@));
    r
}

/// Whether a look at the texts takes out those that have stood incomplete for too
/// long, and the oldest of the rest where they are still too many.
pub open spec fn is_check(
    m: Map<Seq<char>, BufferView>,
    now: u64,
    expired: Seq<FlushedView>,
    oldest: Seq<FlushedView>,
    kept: Map<Seq<char>, BufferView>,
) -> bool {
    let old = stale_set(m, now, STREAM_TIMEOUT);
    let rest = m.remove_keys(old);
    &&& are_texts_of(expired, m, old)
    &&& is_eviction(rest, kept, MAX_BUFFER_COUNT as int)
    &&& are_texts_of(oldest, rest, rest.dom().difference(kept.dom()))
}

/// Takes out the texts that have stood incomplete for too long, and, where there
/// are still too many, the oldest of the rest.
pub fn check_and_flush_timeouts(buffers: &mut StreamBuffers, now: u64) -> (r: (
    Vec<Flushed>,
    Vec<Flushed>,
))
    requires
        old(buffers).wf(),
    ensures
        final(buffers).wf(),
        is_check(
            old(buffers)@,
            now,
            flushed_views(r.0@),
            flushed_views(r.1@),
            final(buffers)@,
        ),
{
    let expired = buffers.flush_expired(now, STREAM_TIMEOUT);
    let oldest = buffers.evict(MAX_BUFFER_COUNT);
    (expired, oldest)
}

// ---------------------------------------------------------------------------
// Laws
// ---------------------------------------------------------------------------

/// A message is never longer than the platform takes, headings aside, and its
/// parts hold the whole text in its order.
pub proof fn parts_hold_the_whole_text(content: Seq<char>)
    requires
        content.len() > MAX_MESSAGE_LENGTH,
    ensures
        ({
            let parts = pieces(content, MAX_MESSAGE_LENGTH as nat);
            &&& joined(parts, Seq::empty()) == content
            &&& message_parts(content).len() == parts.len()
            &&& parts.len() == (content.len() + MAX_MESSAGE_LENGTH - 1) / (
            MAX_MESSAGE_LENGTH as int)
            &&& forall|i: int|
                0 <= i < parts.len() ==> 0 < (#[trigger] parts[i]).len() <= MAX_MESSAGE_LENGTH
                    && message_parts(content)[i] == part_heading((i + 1) as nat, parts.len())
                    + parts[i]
        }),
{
    pieces_make_up_the_text(content, MAX_MESSAGE_LENGTH as nat);
}

/// Nothing of a text that arrives in pieces is lost when it is sent in between:
/// what is sent and what is kept is together what was there and what came.
pub proof fn flushing_keeps_the_text(
    m: Map<Seq<char>, BufferView>,
    chat: Seq<char>,
    piece: Seq<char>,
    now: u64,
)
    ensures
        joined(sent_now(m, chat, ReplyView::StreamChunk(piece)), Seq::empty())
            + text_of(kept_after(m, chat, ReplyView::StreamChunk(piece), now), chat) == text_of(
            m,
            chat,
        ) + piece,
{
    let all = text_of(m, chat) + piece;
    let sent = sent_now(m, chat, ReplyView::StreamChunk(piece));
    if all.len() >= FLUSH_LENGTH {
        assert(joined(sent, Seq::empty()) == all);
        assert(all + Seq::<char>::empty() == all);
    } else {
        assert(joined(sent, Seq::empty()) == Seq::<char>::empty());
        assert(Seq::<char>::empty() + all == all);
    }
}

/// What happens to the texts of all chats: something goes out to a user, or the
/// texts are looked through, which sends some of them and keeps the others.
pub enum Happening {
    Out { chat: Seq<char>, content: ReplyView, now: u64 },
    Check {
        now: u64,
        expired: Seq<FlushedView>,
        oldest: Seq<FlushedView>,
        kept: Map<Seq<char>, BufferView>,
    },
}

/// Whether something can happen to the texts that are kept.
pub open spec fn can_happen(m: Map<Seq<char>, BufferView>, h: Happening) -> bool {
    match h {
        Happening::Out { chat, content, now } => true,
        Happening::Check { now, expired, oldest, kept } => is_check(m, now, expired, oldest, kept),
    }
}

/// What is kept after something has happened.
pub open spec fn kept_by(m: Map<Seq<char>, BufferView>, h: Happening) -> Map<Seq<char>, BufferView> {
    match h {
        Happening::Out { chat, content, now } => kept_after(m, chat, content, now),
        Happening::Check { now, expired, oldest, kept } => kept,
    }
}

/// The texts of a chat among some that are sent.
pub open spec fn texts_for(sent: Seq<FlushedView>, chat: Seq<char>) -> Seq<Seq<char>>
    decreases sent.len(),
{
    if sent.len() == 0 {
        Seq::empty()
    } else if sent.last().chat_id == chat {
        texts_for(sent.drop_last(), chat).push(sent.last().text)
    } else {
        texts_for(sent.drop_last(), chat)
    }
}

/// What is sent to a chat when something happens.
pub open spec fn sent_by(m: Map<Seq<char>, BufferView>, h: Happening, chat: Seq<char>) -> Seq<
    Seq<char>,
> {
    match h {
        Happening::Out { chat: other, content, now } => if other == chat {
            sent_now(m, chat, content)
        } else {
            Seq::empty()
        },
        Happening::Check { now, expired, oldest, kept } => texts_for(expired, chat) + texts_for(
            oldest,
            chat,
        ),
    }
}

/// What is kept after all that has happened.
pub open spec fn kept_over(m: Map<Seq<char>, BufferView>, course: Seq<Happening>) -> Map<
    Seq<char>,
    BufferView,
>
    decreases course.len(),
{
    if course.len() == 0 {
        m
    } else {
        kept_by(kept_over(m, course.drop_last()), course.last())
    }
}

/// What was sent to a chat in the course of all that has happened.
pub open spec fn sent_over(
    m: Map<Seq<char>, BufferView>,
    course: Seq<Happening>,
    chat: Seq<char>,
) -> Seq<Seq<char>>
    decreases course.len(),
{
    if course.len() == 0 {
        Seq::empty()
    } else {
        let front = course.drop_last();
        sent_over(m, front, chat) + sent_by(kept_over(m, front), course.last(), chat)
    }
}

/// The pieces of a chat's text that came.
pub open spec fn pieces_over(course: Seq<Happening>, chat: Seq<char>) -> Seq<Seq<char>>
    decreases course.len(),
{
    if course.len() == 0 {
        Seq::empty()
    } else {
        let before = pieces_over(course.drop_last(), chat);
        match course.last() {
            Happening::Out { chat: other, content: ReplyView::StreamChunk(piece), now } => if other
                == chat {
                before.push(piece)
            } else {
                before
            },
            _ => before,
        }
    }
}

/// Whether all of this can happen, one after the other, while pieces of a chat's
/// text and nothing else goes out to that chat.
pub open spec fn streams_to(
    m: Map<Seq<char>, BufferView>,
    course: Seq<Happening>,
    chat: Seq<char>,
) -> bool
    decreases course.len(),
{
    course.len() == 0 || {
        &&& streams_to(m, course.drop_last(), chat)
        &&& can_happen(kept_over(m, course.drop_last()), course.last())
        &&& match course.last() {
            Happening::Out { chat: other, content, now } => other == chat ==> content is StreamChunk,
            _ => true,
        }
    }
}

/// Whether no look at the texts found a chat's standing still for too long, or
/// too many of them.
pub open spec fn undisturbed(
    m: Map<Seq<char>, BufferView>,
    course: Seq<Happening>,
    chat: Seq<char>,
) -> bool
    decreases course.len(),
{
    course.len() == 0 || {
        let before = kept_over(m, course.drop_last());
        &&& undisturbed(m, course.drop_last(), chat)
        &&& match course.last() {
            Happening::Check { now, expired, oldest, kept } => {
                &&& !stale(before, chat, now, STREAM_TIMEOUT)
                &&& before.remove_keys(stale_set(before, now, STREAM_TIMEOUT)).dom().len()
                    <= MAX_BUFFER_COUNT
            },
            _ => true,
        }
    }
}

/// A chat has one text among those that are sent, or none.
proof fn lemma_texts_for(sent: Seq<FlushedView>, f: FlushedView)
    requires
        sent.no_duplicates(),
        forall|i: int|
            0 <= i < sent.len() && (#[trigger] sent[i]).chat_id == f.chat_id ==> sent[i] == f,
    ensures
        texts_for(sent, f.chat_id) == if sent.contains(f) {
            seq![f.text]
        } else {
            Seq::empty()
        },
    decreases sent.len(),
{
    if sent.len() > 0 {
        let front = sent.drop_last();
        assert forall|i: int|
            0 <= i < front.len() && (#[trigger] front[i]).chat_id == f.chat_id implies front[i]
            == f by {
            assert(front[i] == sent[i]);
        }
        lemma_texts_for(front, f);
        assert(sent[sent.len() - 1] == sent.last());
        if front.contains(f) {
            let i = front.index_of(f);
            assert(sent[i] == f);
        }
        if sent.contains(f) && sent.last() != f {
            let i = sent.index_of(f);
            assert(front[i] == f);
        }
        assert(Seq::<Seq<char>>::empty().push(f.text) == seq![f.text]);
    }
}

/// What a look at the texts sends to a chat: its text, where it takes it out.
proof fn lemma_sent_of(
    sent: Seq<FlushedView>,
    m: Map<Seq<char>, BufferView>,
    chats: Set<Seq<char>>,
    chat: Seq<char>,
)
    requires
        are_texts_of(sent, m, chats),
    ensures
        texts_for(sent, chat) == if chats.contains(chat) && text_of(m, chat).len() > 0 {
            seq![text_of(m, chat)]
        } else {
            Seq::empty()
        },
{
    let f = FlushedView { chat_id: chat, text: text_of(m, chat) };
    assert forall|i: int|
        0 <= i < sent.len() && (#[trigger] sent[i]).chat_id == f.chat_id implies sent[i] == f by {
        assert(sent.contains(sent[i]));
    }
    lemma_texts_for(sent, f);
    assert(sent.contains(f) <==> chats.contains(chat) && m.contains_key(chat) && f.text
        == m[chat].text && f.text.len() > 0);
}

/// What happens to a chat's text at one time: it is sent whole or kept.
proof fn lemma_happening(m: Map<Seq<char>, BufferView>, h: Happening, chat: Seq<char>)
    requires
        can_happen(m, h),
        h matches Happening::Out { chat: other, content, now } ==> (other == chat
            ==> content is StreamChunk),
    ensures
        ({
            let piece = match h {
                Happening::Out { chat: other, content: ReplyView::StreamChunk(piece), now } => if other
                    == chat {
                    piece
                } else {
                    Seq::empty()
                },
                _ => Seq::empty(),
            };
            let sent = sent_by(m, h, chat);
            let all = text_of(m, chat) + piece;
            ||| sent == Seq::<Seq<char>>::empty() && text_of(kept_by(m, h), chat) == all
            ||| {
                &&& sent == seq![all]
                &&& all.len() > 0
                &&& text_of(kept_by(m, h), chat).len() == 0
                &&& h is Out ==> all.len() >= FLUSH_LENGTH
            }
        }),
        h matches Happening::Check { now, expired, oldest, kept } ==> (!stale(
            m,
            chat,
            now,
            STREAM_TIMEOUT,
        ) && m.remove_keys(stale_set(m, now, STREAM_TIMEOUT)).dom().len() <= MAX_BUFFER_COUNT
            ==> sent_by(m, h, chat) == Seq::<Seq<char>>::empty()),
{
    let none = Seq::<Seq<char>>::empty();
    let text = text_of(m, chat);
    assert(text + Seq::<char>::empty() == text);
    match h {
        Happening::Out { chat: other, content, now } => {},
        Happening::Check { now, expired, oldest, kept } => {
            let old = stale_set(m, now, STREAM_TIMEOUT);
            let rest = m.remove_keys(old);
            let gone = rest.dom().difference(kept.dom());
            lemma_sent_of(expired, m, old, chat);
            lemma_sent_of(oldest, rest, gone, chat);
            assert(none + none == none);
            assert(seq![text] + none == seq![text]);
            assert(none + seq![text] == seq![text]);
            assert(kept.submap_of(rest));
            if kept.contains_key(chat) {
                assert(kept.dom().contains(chat));
                assert(rest.dom().contains(chat));
                assert(rest[chat] == kept[chat]);
            }
        },
    }
}

proof fn lemma_course(m: Map<Seq<char>, BufferView>, course: Seq<Happening>, chat: Seq<char>)
    requires
        streams_to(m, course, chat),
    ensures
        ({
            let sent = sent_over(m, course, chat);
            &&& joined(sent, Seq::empty()) + text_of(kept_over(m, course), chat) == text_of(m, chat)
                + joined(pieces_over(course, chat), Seq::empty())
            &&& forall|i: int| 0 <= i < sent.len() ==> (#[trigger] sent[i]).len() > 0
            &&& undisturbed(m, course, chat) ==> forall|i: int|
                0 <= i < sent.len() ==> (#[trigger] sent[i]).len() >= FLUSH_LENGTH
        }),
    decreases course.len(),
{
    let start = text_of(m, chat);
    let none = Seq::<char>::empty();
    if course.len() == 0 {
        assert(none + start == start + none);
    } else {
        let front = course.drop_last();
        let h = course.last();
        let before = kept_over(m, front);
        let sent = sent_over(m, front, chat);
        let now = sent_by(before, h, chat);
        let left = text_of(before, chat);
        let came = pieces_over(front, chat);
        let sum = joined(sent, none);
        let total = joined(came, none);
        lemma_course(m, front, chat);
        lemma_happening(before, h, chat);
        let piece = match h {
            Happening::Out { chat: other, content: ReplyView::StreamChunk(piece), now } => if other
                == chat {
                piece
            } else {
                none
            },
            _ => none,
        };
        assert(joined(pieces_over(course, chat), none) == total + piece) by {
            lemma_joined_push(came, piece);
            assert(total + none == total);
        }
        assert(start + (total + piece) == sum + (left + piece)) by {
            assert(start + (total + piece) == (start + total) + piece);
            assert(sum + (left + piece) == (sum + left) + piece);
        }
        if now.len() == 0 {
            assert(sent + now == sent);
        } else {
            let all = left + piece;
            lemma_joined_push(sent, all);
            assert(sent + now == sent.push(all));
            assert(text_of(kept_by(before, h), chat) == none);
            assert(sum + all + none == sum + all);
        }
    }
}

/// However many pieces a chat's text arrives in, whatever goes out to other chats
/// in between, and however often the texts are looked through: once the text is
/// complete, what was sent to the chat is its pieces in their order, with nothing
/// lost, doubled or mixed with another chat's. No message is empty, and nothing
/// of the chat's is kept. As long as the text never stands still for too long and
/// there are not too many texts, what is sent before the end is long enough.
pub proof fn streams_are_sent_whole(
    m: Map<Seq<char>, BufferView>,
    course: Seq<Happening>,
    chat: Seq<char>,
    now: u64,
)
    requires
        streams_to(m, course, chat),
    ensures
        ({
            let end = Happening::Out { chat, content: ReplyView::StreamEnd, now };
            let whole = course.push(end);
            let early = sent_over(m, course, chat);
            let sent = sent_over(m, whole, chat);
            &&& joined(sent, Seq::empty()) == text_of(m, chat) + joined(
                pieces_over(course, chat),
                Seq::empty(),
            )
            &&& forall|i: int| 0 <= i < sent.len() ==> (#[trigger] sent[i]).len() > 0
            &&& early.is_prefix_of(sent) && sent.len() <= early.len() + 1
            &&& undisturbed(m, course, chat) ==> forall|i: int|
                0 <= i < early.len() ==> (#[trigger] early[i]).len() >= FLUSH_LENGTH
            &&& !kept_over(m, whole).contains_key(chat)
        }),
{
    let end = Happening::Out { chat, content: ReplyView::StreamEnd, now };
    let whole = course.push(end);
    let early = sent_over(m, course, chat);
    let before = kept_over(m, course);
    let left = text_of(before, chat);
    lemma_course(m, course, chat);
    assert(whole.drop_last() == course);
    let last = sent_now(before, chat, ReplyView::StreamEnd);
    if left.len() == 0 {
        assert(early + last == early);
        assert(joined(early, Seq::empty()) + left == joined(early, Seq::empty()));
    } else {
        lemma_joined_push(early, left);
        assert(early + last == early.push(left));
    }
    assert((early + last).subrange(0, early.len() as int) == early);
}

/// Whether a text is free of tags.
pub open spec fn tagless(s: Seq<char>) -> bool {
    forall|i: int| 0 <= i < s.len() ==> #[trigger] s[i] != '<' && s[i] != '>'
}

proof fn lemma_counted_plain(s: Scan, text: Seq<char>)
    requires
        tagless(text),
        !s.in_tag,
        !s.after_at,
        !s.behind_tag,
    ensures
        counted(s, text) == text,
    decreases text.len(),
{
    if text.len() > 0 {
        let rest = text.skip(1);
        assert forall|i: int| 0 <= i < rest.len() implies #[trigger] rest[i] != '<' && rest[i]
            != '>' by {
            assert(rest[i] == text[i + 1]);
        }
        assert(scan(s, text[0]).0 == s);
        lemma_counted_plain(s, rest);
        assert(seq![text[0]] + rest == text);
    }
}

proof fn lemma_counted_tagless(s: Scan, text: Seq<char>)
    ensures
        tagless(counted(s, text)),
    decreases text.len(),
{
    if text.len() > 0 {
        let (next, counts) = scan(s, text[0]);
        lemma_counted_tagless(next, text.skip(1));
    }
}

proof fn lemma_trim_tagless(s: Seq<char>)
    requires
        tagless(s),
    ensures
        tagless(trim(s)),
{
    lemma_trim_start_tagless(s);
    lemma_trim_end_tagless(trim_start(s));
}

proof fn lemma_trim_start_tagless(s: Seq<char>)
    requires
        tagless(s),
    ensures
        tagless(trim_start(s)),
    decreases s.len(),
{
    if s.len() > 0 && white(s[0]) {
        let rest = s.skip(1);
        assert forall|i: int| 0 <= i < rest.len() implies #[trigger] rest[i] != '<' && rest[i]
            != '>' by {
            assert(rest[i] == s[i + 1]);
        }
        lemma_trim_start_tagless(rest);
    }
}

proof fn lemma_trim_end_tagless(s: Seq<char>)
    requires
        tagless(s),
    ensures
        tagless(trim_end(s)),
    decreases s.len(),
{
    if s.len() > 0 && white(s.last()) {
        lemma_trim_end_tagless(s.drop_last());
    }
}

/// No text keeps a part of a tag.
pub proof fn normalized_texts_have_no_tags(content: Seq<char>)
    ensures
        tagless(normalized(content)),
{
    lemma_counted_tagless(scan_start(), trim(content));
    lemma_trim_tagless(counted(scan_start(), trim(content)));
}

proof fn lemma_trim_subsequence(s: Seq<char>)
    ensures
        is_subsequence(trim(s), s),
{
    let body = trim_start(s);
    lemma_trim_start_len(s);
    lemma_trim_end_props(body);
    lemma_subsequence_skip(s, s.len() - body.len());
    lemma_subsequence_take(body, trim_end(body).len() as int);
    lemma_subsequence_transitive(trim(s), body, s);
}

proof fn lemma_counted_subsequence(s: Scan, text: Seq<char>)
    ensures
        is_subsequence(counted(s, text), text),
    decreases text.len(),
{
    if text.len() > 0 {
        let (next, counts) = scan(s, text[0]);
        let rest = text.skip(1);
        lemma_counted_subsequence(next, rest);
        if counts {
            assert(counted(s, text).skip(1) == counted(next, rest));
        }
    }
}

/// Taking out tags and mentions adds nothing and changes no order: what is left
/// are characters of the text, in their order.
pub proof fn normalizing_only_takes_out(content: Seq<char>)
    ensures
        is_subsequence(normalized(content), content),
{
    let t = trim(content);
    let c = counted(scan_start(), t);
    lemma_trim_subsequence(content);
    lemma_counted_subsequence(scan_start(), t);
    lemma_trim_subsequence(c);
    lemma_subsequence_transitive(c, t, content);
    lemma_subsequence_transitive(normalized(content), c, content);
}

/// A text without tags stays as it is, but for the white space around it.
pub proof fn plain_texts_stay(content: Seq<char>)
    requires
        tagless(content),
    ensures
        normalized(content) == trim(content),
{
    lemma_trim_tagless(content);
    lemma_counted_plain(scan_start(), trim(content));
    crate::text::lemma_trim_ends(content);
    lemma_trim_unchanged(trim(content));
}

proof fn lemma_in_tag(s: Scan, seg: Seq<char>, tail: Seq<char>)
    requires
        s.in_tag,
        tagless(seg),
    ensures
        counted(s, seg + tail) == counted(
            Scan { after_at: s.after_at || seg.contains('@'), ..s },
            tail,
        ),
    decreases seg.len(),
{
    if seg.len() == 0 {
        assert(seg + tail == tail);
    } else {
        let rest = seg.skip(1);
        assert((seg + tail).skip(1) == rest + tail);
        assert forall|i: int| 0 <= i < rest.len() implies #[trigger] rest[i] != '<' && rest[i]
            != '>' by {
            assert(rest[i] == seg[i + 1]);
        }
        let next = scan(s, seg[0]).0;
        lemma_in_tag(next, rest, tail);
        assert(seg.contains('@') <==> seg[0] == '@' || rest.contains('@')) by {
            if seg.contains('@') && seg[0] != '@' {
                let i = seg.index_of('@');
                assert(rest[i - 1] == '@');
            }
            if rest.contains('@') {
                let i = rest.index_of('@');
                assert(seg[i + 1] == '@');
            }
        }
    }
}

proof fn lemma_in_name(seg: Seq<char>, tail: Seq<char>)
    requires
        tagless(seg),
        forall|i: int| 0 <= i < seg.len() ==> !white(#[trigger] seg[i]),
    ensures
        ({
            let s = Scan { in_tag: false, after_at: true, behind_tag: false };
            counted(s, seg + tail) == counted(s, tail)
        }),
    decreases seg.len(),
{
    if seg.len() == 0 {
        assert(seg + tail == tail);
    } else {
        let rest = seg.skip(1);
        assert((seg + tail).skip(1) == rest + tail);
        assert forall|i: int| 0 <= i < rest.len() implies #[trigger] rest[i] != '<' && rest[i]
            != '>' && !white(rest[i]) by {
            assert(rest[i] == seg[i + 1]);
        }
        lemma_in_name(rest, tail);
    }
}

/// Where one is behind a mention at the head of a text.
proof fn lemma_behind_mention(attributes: Seq<char>, name: Seq<char>, tail: Seq<char>)
    requires
        tagless(attributes),
        tagless(name),
        forall|i: int| 0 <= i < name.len() ==> !white(#[trigger] name[i]),
    ensures
        counted(scan_start(), "<at"@ + attributes + ">@"@ + name + "</at>"@ + tail) == counted(
            Scan { in_tag: false, after_at: true, behind_tag: true },
            tail,
        ),
{
    reveal_strlit("<at");
    reveal_strlit(">@");
    reveal_strlit("</at>");
    let text = "<at"@ + attributes + ">@"@ + name + "</at>"@ + tail;
    let start = scan_start();
    let opened = Scan { in_tag: true, after_at: false, behind_tag: false };
    let tag = seq!['a', 't'] + attributes;
    let after_tag = ">@"@ + name + "</at>"@ + tail;
    assert(text[0] == '<');
    assert(text.skip(1) == tag + after_tag);
    assert(counted(start, text) == counted(opened, tag + after_tag));
    assert(tagless(tag));
    lemma_in_tag(opened, tag, after_tag);
    let inside = Scan { after_at: tag.contains('@'), ..opened };
    let at_name = seq!['@'] + name + "</at>"@ + tail;
    let behind = Scan { in_tag: false, after_at: inside.after_at, behind_tag: true };
    assert(after_tag.skip(1) == at_name);
    assert(counted(inside, after_tag) == counted(behind, at_name));
    let naming = Scan { in_tag: false, after_at: true, behind_tag: false };
    let closing = "</at>"@ + tail;
    assert(at_name.skip(1) == name + closing);
    assert(counted(behind, at_name) == counted(naming, name + closing));
    lemma_in_name(name, closing);
    let closed = Scan { in_tag: true, after_at: true, behind_tag: false };
    let end_tag = seq!['/', 'a', 't'];
    let after_end = seq!['>'] + tail;
    assert(closing.skip(1) == end_tag + after_end);
    assert(counted(naming, closing) == counted(closed, end_tag + after_end));
    lemma_in_tag(closed, end_tag, after_end);
    assert(after_end.skip(1) == tail);
}

proof fn lemma_counted_white(w: Seq<char>, text: Seq<char>)
    requires
        forall|i: int| 0 <= i < w.len() ==> white(#[trigger] w[i]),
    ensures
        counted(scan_start(), w + text) == w + counted(scan_start(), text),
    decreases w.len(),
{
    if w.len() == 0 {
        assert(w + text == text);
        assert(w + counted(scan_start(), text) == counted(scan_start(), text));
    } else {
        let rest = w.skip(1);
        assert((w + text).skip(1) == rest + text);
        assert(white(w[0]));
        assert forall|i: int| 0 <= i < rest.len() implies white(#[trigger] rest[i]) by {
            assert(rest[i] == w[i + 1]);
        }
        lemma_counted_white(rest, text);
        assert(seq![w[0]] + (rest + counted(scan_start(), text)) == w + counted(
            scan_start(),
            text,
        ));
    }
}

/// A mention at the head of a text is taken out with its tags and the name that
/// it mentions, and what follows it is read as it would be read without it.
pub proof fn mentions_are_taken_out(attributes: Seq<char>, name: Seq<char>, rest: Seq<char>)
    requires
        tagless(attributes),
        tagless(name),
        forall|i: int| 0 <= i < name.len() ==> !white(#[trigger] name[i]),
    ensures
        normalized("<at"@ + attributes + ">@"@ + name + "</at>"@ + (" "@ + rest)) == normalized(
            rest,
        ),
{
    reveal_strlit("<at");
    reveal_strlit("</at>");
    reveal_strlit(" ");
    let head = "<at"@ + attributes + ">@"@ + name + "</at>"@;
    let text = head + (" "@ + rest);
    assert(text[0] == '<');
    assert(trim_start(text) == text);
    let end = trim_end(rest);
    let body = trim_start(rest);
    lemma_trim_start_len(rest);
    lemma_trim_end_props(rest);
    lemma_trim_end_behind(" "@, rest);
    lemma_trim_end_behind(head, " "@ + rest);
    let w = rest.take(rest.len() - body.len());
    assert(rest == w + body);
    if body.len() == 0 {
        assert(end.len() == 0) by {
            if end.len() > 0 {
                assert(end.last() == rest[end.len() - 1]);
            }
        }
        assert(" "@.drop_last() == Seq::<char>::empty());
        assert(trim_end(" "@) == Seq::<char>::empty()) by {
            reveal_with_fuel(trim_end, 2);
        }
        assert(head.last() == '>');
        assert(trim(text) == head);
        lemma_behind_mention(attributes, name, Seq::empty());
        assert(head + Seq::<char>::empty() == head);
        assert(trim(rest) == Seq::<char>::empty());
    } else {
        lemma_trim_end_visible(body);
        lemma_trim_end_behind(w, body);
        assert(end == w + trim(rest));
        let blank = " "@ + end;
        assert(trim(text) == head + blank);
        lemma_behind_mention(attributes, name, blank);
        assert(blank.skip(1) == end);
        assert(counted(scan_start(), trim(text)) == counted(scan_start(), end));
        lemma_counted_white(w, trim(rest));
        lemma_trim_white_before(w, counted(scan_start(), trim(rest)));
    }
}

proof fn lemma_counted_all_white(s: Scan, w: Seq<char>)
    requires
        forall|i: int| 0 <= i < w.len() ==> white(#[trigger] w[i]),
    ensures
        forall|i: int| 0 <= i < counted(s, w).len() ==> white(#[trigger] counted(s, w)[i]),
    decreases w.len(),
{
    if w.len() > 0 {
        assert(white(w[0]));
        let rest = w.skip(1);
        assert forall|i: int| 0 <= i < rest.len() implies white(#[trigger] rest[i]) by {
            assert(rest[i] == w[i + 1]);
        }
        let (next, counts) = scan(s, w[0]);
        lemma_counted_all_white(next, rest);
        let c = counted(s, w);
        assert forall|i: int| 0 <= i < c.len() implies white(#[trigger] c[i]) by {
            if counts {
                assert(i > 0 ==> c[i] == counted(next, rest)[i - 1]);
            } else {
                assert(c == counted(next, rest));
            }
        }
    }
}

proof fn lemma_counted_white_behind(s: Scan, text: Seq<char>, w: Seq<char>) -> (u: Seq<char>)
    requires
        forall|i: int| 0 <= i < w.len() ==> white(#[trigger] w[i]),
    ensures
        counted(s, text + w) == counted(s, text) + u,
        forall|i: int| 0 <= i < u.len() ==> white(#[trigger] u[i]),
    decreases text.len(),
{
    if text.len() == 0 {
        let u = counted(s, w);
        lemma_counted_all_white(s, w);
        assert(text + w == w);
        assert(counted(s, text) + u == u);
        u
    } else {
        let (next, counts) = scan(s, text[0]);
        let rest = text.skip(1);
        let u = lemma_counted_white_behind(next, rest, w);
        assert((text + w).skip(1) == rest + w);
        assert((text + w)[0] == text[0]);
        assert(seq![text[0]] + (counted(next, rest) + u) == seq![text[0]] + counted(next, rest)
            + u);
        u
    }
}

proof fn lemma_normalized(content: Seq<char>)
    ensures
        normalized(content) == trim(counted(scan_start(), content)),
{
    crate::text::trimming_takes_off_white_space_only(content);
    let (i, j) = choose|i: int, j: int|
        0 <= i <= j <= content.len() && trim(content) == #[trigger] content.subrange(i, j) && (
        forall|k: int| 0 <= k < i || j <= k < content.len() ==> white(#[trigger] content[k]));
    let w = content.take(i);
    let t = content.subrange(i, j);
    let v = content.skip(j);
    assert(content == w + (t + v));
    assert forall|k: int| 0 <= k < w.len() implies white(#[trigger] w[k]) by {
        assert(w[k] == content[k]);
    }
    assert forall|k: int| 0 <= k < v.len() implies white(#[trigger] v[k]) by {
        assert(v[k] == content[j + k]);
    }
    lemma_counted_white(w, t + v);
    let u = lemma_counted_white_behind(scan_start(), t, v);
    let c = counted(scan_start(), t);
    crate::text::lemma_trim_white_before(w, c + u);
    crate::text::lemma_trim_white_behind(c, u);
}

proof fn lemma_counted_plain_before(before: Seq<char>, text: Seq<char>)
    requires
        tagless(before),
    ensures
        counted(scan_start(), before + text) == before + counted(scan_start(), text),
    decreases before.len(),
{
    if before.len() == 0 {
        assert(before + text == text);
        assert(before + counted(scan_start(), text) == counted(scan_start(), text));
    } else {
        let rest = before.skip(1);
        assert((before + text).skip(1) == rest + text);
        assert(before[0] != '<' && before[0] != '>');
        assert forall|i: int| 0 <= i < rest.len() implies #[trigger] rest[i] != '<' && rest[i]
            != '>' by {
            assert(rest[i] == before[i + 1]);
        }
        lemma_counted_plain_before(rest, text);
        assert(seq![before[0]] + (rest + counted(scan_start(), text)) == before + counted(
            scan_start(),
            text,
        ));
    }
}

/// A tag that mentions nobody is taken out of the midst of a text, and all that
/// stands around it stays.
pub proof fn tags_are_taken_out(before: Seq<char>, tag: Seq<char>, after: Seq<char>)
    requires
        tagless(before),
        tagless(tag),
        tagless(after),
        !tag.contains('@'),
        after.len() > 0 ==> after[0] != '@',
    ensures
        normalized(before + (seq!['<'] + tag + seq!['>'] + after)) == trim(before + after),
{
    let text = seq!['<'] + tag + seq!['>'] + after;
    let opened = Scan { in_tag: true, after_at: false, behind_tag: false };
    let closing = seq!['>'] + after;
    let behind = Scan { in_tag: false, after_at: false, behind_tag: true };
    lemma_normalized(before + text);
    lemma_counted_plain_before(before, text);
    assert(text[0] == '<');
    assert(text.skip(1) == tag + closing);
    lemma_in_tag(opened, tag, closing);
    assert(closing[0] == '>');
    assert(closing.skip(1) == after);
    assert(counted(scan_start(), text) == counted(behind, after));
    if after.len() > 0 {
        let rest = after.skip(1);
        assert(after[0] != '<' && after[0] != '>');
        assert forall|i: int| 0 <= i < rest.len() implies #[trigger] rest[i] != '<' && rest[i]
            != '>' by {
            assert(rest[i] == after[i + 1]);
        }
        lemma_counted_plain(scan_start(), rest);
        assert(seq![after[0]] + rest == after);
    }
    assert(counted(behind, after) == after);
}

/// A mention is taken out of the midst of a text with its tags, the name and the
/// blank behind it, and all that stands around it stays.
pub proof fn mentions_are_taken_out_anywhere(
    before: Seq<char>,
    attributes: Seq<char>,
    name: Seq<char>,
    after: Seq<char>,
)
    requires
        tagless(before),
        tagless(attributes),
        tagless(name),
        tagless(after),
        forall|i: int| 0 <= i < name.len() ==> !white(#[trigger] name[i]),
    ensures
        normalized(before + ("<at"@ + attributes + ">@"@ + name + "</at>"@ + (" "@ + after)))
            == trim(before + after),
{
    reveal_strlit(" ");
    let text = "<at"@ + attributes + ">@"@ + name + "</at>"@ + (" "@ + after);
    lemma_normalized(before + text);
    lemma_counted_plain_before(before, text);
    lemma_behind_mention(attributes, name, " "@ + after);
    assert((" "@ + after)[0] == ' ');
    assert((" "@ + after).skip(1) == after);
    lemma_counted_plain(scan_start(), after);
}

/// A chat is named after the user where the message came from a single chat, and
/// otherwise after the group that the event names, or else the message.
pub proof fn chats_are_named_after_users_and_groups(e: MessageEvent)
    ensures
        e.chat_type@ == "p2p"@ ==> chat_of_event(e) == Some("p2p:"@ + e.sender_open_id@),
        e.chat_type@ != "p2p"@ && e.chat_id is Some ==> chat_of_event(e) == Some(
            "group:"@ + e.chat_id->0@,
        ),
        e.chat_type@ != "p2p"@ && e.chat_id is None && e.message_chat_id is Some ==> chat_of_event(e)
            == Some("group:"@ + e.message_chat_id->0@),
        e.chat_type@ != "p2p"@ && e.chat_id is None && e.message_chat_id is None ==> chat_of_event(
            e,
        ) is None,
{
}

/// A text of a single chat is passed on from its sender, without its tags, and gets
/// a sign that it was seen; so is one of a group that is named. What is no text, or
/// comes from any other chat, is passed over, and what cannot be read is an error.
pub proof fn texts_of_users_are_passed_on(e: MessageEvent, channel: Seq<char>, step: EventStep)
    requires
        is_step_of(e, channel, step),
    ensures
        e.message_type@ != "text"@ ==> step is Ignore,
        e.message_type@ == "text"@ && e.text is Err ==> step is Failed,
        e.text is Ok && e.chat_type@ != "p2p"@ && e.chat_type@ != "group"@ ==> step is Ignore,
        e.message_type@ == "text"@ && e.text is Ok && e.chat_type@ == "group"@ && e.chat_id is None
            && e.message_chat_id is None ==> step == EventStep::Failed(EventError::MissingChatId),
        e.message_type@ == "text"@ && e.text is Ok && (e.chat_type@ == "p2p"@ || (e.chat_type@
            == "group"@ && e.chat_id is Some)) ==> {
            &&& step matches EventStep::Message { message, react_to }
            &&& react_to@ == e.message_id@
            &&& message.channel_name@ == channel
            &&& message.chat_id@ == if e.chat_type@ == "p2p"@ {
                "p2p:"@ + e.sender_open_id@
            } else {
                "group:"@ + e.chat_id->0@
            }
            &&& message.content@ == incoming_of(normalized(e.text->Ok_0@))
            &&& is_lowered(message.content@, command_text(normalized(e.text->Ok_0@)))
        },
{
    reveal_strlit("p2p");
    reveal_strlit("group");
    assert("p2p"@.len() != "group"@.len());
}

/// Messages are sent to the users and groups that chats are named after, and
/// nowhere where a chat is named after neither.
pub proof fn messages_go_to_users_and_groups(id: Seq<char>, chat: Seq<char>)
    ensures
        recipient("p2p:"@ + id) == Some(("open_id"@, id)),
        recipient("group:"@ + id) == Some(("chat_id"@, id)),
        !"p2p:"@.is_prefix_of(chat) && !"group:"@.is_prefix_of(chat) ==> recipient(chat) is None,
{
    reveal_strlit("p2p:");
    reveal_strlit("group:");
    crate::split::prefixes_are_taken_off("p2p:"@, id, chat);
    crate::split::prefixes_are_taken_off("group:"@, id, chat);
    assert(("group:"@ + id)[0] == 'g');
    assert("p2p:"@[0] == 'p');
}

/// A text of four thousand characters at most is one message. A longer one is sent
/// in parts, each behind its number and the number of all; the parts have four
/// thousand characters each, but for the last.
pub proof fn long_texts_are_numbered(content: Seq<char>, i: int)
    ensures
        content.len() <= 4000 ==> message_parts(content) == seq![content],
        content.len() > 4000 && 0 <= i < message_parts(content).len() ==> message_parts(content)[i]
            == "[Part "@ + decimal((i + 1) as nat) + "/"@ + decimal(message_parts(content).len())
            + "]\n"@ + pieces(content, 4000)[i],
        content.len() > 4000 && 0 <= i < message_parts(content).len() - 1 ==> pieces(
            content,
            4000,
        )[i].len() == 4000,
        content.len() > 4000 ==> joined(pieces(content, 4000), Seq::empty()) == content,
        content.len() > 4000 ==> message_parts(content).len() == pieces(content, 4000).len(),
{
    if content.len() > 4000 {
        pieces_make_up_the_text(content, 4000);
        if 0 <= i < message_parts(content).len() - 1 {
            crate::split::pieces_are_full(content, 4000, i);
        }
    }
}

proof fn lemma_json_plain(s: Seq<char>)
    requires
        forall|i: int| 0 <= i < s.len() ==> ' ' <= #[trigger] s[i] && s[i] != '"' && s[i] != '\\',
    ensures
        json_chars(s) == s,
    decreases s.len(),
{
    if s.len() > 0 {
        let front = s.drop_last();
        assert forall|i: int| 0 <= i < front.len() implies ' ' <= #[trigger] front[i] && front[i]
            != '"' && front[i] != '\\' by {
            assert(front[i] == s[i]);
        }
        lemma_json_plain(front);
        assert(s.last() == s[s.len() - 1]);
        assert(front + seq![s.last()] == s);
    }
}

/// A text without quotation marks, backslashes and control characters stands in
/// JSON as it is.
pub proof fn plain_texts_stand_in_json_as_they_are(s: Seq<char>)
    requires
        forall|i: int| 0 <= i < s.len() ==> ' ' <= #[trigger] s[i] && s[i] != '"' && s[i] != '\\',
    ensures
        json_entry("text"@, s) == "{\"text\":\""@ + s + "\"}"@,
{
    reveal_strlit("text");
    reveal_strlit("{\"");
    reveal_strlit("\":\"");
    reveal_strlit("{\"text\":\"");
    lemma_json_plain("text"@);
    lemma_json_plain(s);
    assert("{\"text\":\""@ =~= "{\""@ + "text"@ + "\":\""@);
}

/// Whole texts, errors and mentions are sent at once and leave the texts alone that
/// are still arriving.
pub proof fn whole_messages_are_sent_at_once(
    m: Map<Seq<char>, BufferView>,
    chat: Seq<char>,
    text: Seq<char>,
    bot: Seq<char>,
    channel: Option<Seq<char>>,
    now: u64,
)
    ensures
        ({
            let mention = ReplyView::Mention {
                target_bot: bot,
                target_channel_name: channel,
                message: text,
            };
            &&& sent_now(m, chat, ReplyView::Text(text)) == seq![text]
            &&& sent_now(m, chat, ReplyView::Error(text)) == seq!["Error: "@ + text]
            &&& sent_now(m, chat, mention) == seq!["@"@ + bot + " "@ + text]
            &&& kept_after(m, chat, ReplyView::Text(text), now) == m
            &&& kept_after(m, chat, ReplyView::Error(text), now) == m
            &&& kept_after(m, chat, mention, now) == m
        }),
{
}

/// What has come of a text is sent as soon as it has five hundred characters, and
/// nothing of it before. When the text is complete the rest is sent, if there is
/// any. The texts of other chats stay as they are.
pub proof fn texts_are_sent_by_five_hundred(
    m: Map<Seq<char>, BufferView>,
    chat: Seq<char>,
    piece: Seq<char>,
    now: u64,
)
    ensures
        ({
            let before = if m.contains_key(chat) {
                m[chat].text
            } else {
                Seq::empty()
            };
            let chunk = ReplyView::StreamChunk(piece);
            &&& (before + piece).len() >= 500 ==> sent_now(m, chat, chunk) == seq![before + piece]
                && kept_after(m, chat, chunk, now) == m.remove(chat)
            &&& (before + piece).len() < 500 ==> sent_now(m, chat, chunk).len() == 0 && kept_after(
                m,
                chat,
                chunk,
                now,
            ) == m.insert(chat, BufferView { text: before + piece, touched: now })
            &&& before.len() > 0 ==> sent_now(m, chat, ReplyView::StreamEnd) == seq![before]
            &&& before.len() == 0 ==> sent_now(m, chat, ReplyView::StreamEnd).len() == 0
            &&& kept_after(m, chat, ReplyView::StreamEnd, now) == m.remove(chat)
        }),
{
}

/// A look at the texts takes out those that have stood still for more than ten
/// seconds, and sends each of them that is not empty. Of the others it keeps a
/// thousand at most, and all where they are no more; what it keeps stays as it
/// was.
pub proof fn looks_send_what_stands_still(
    m: Map<Seq<char>, BufferView>,
    now: u64,
    expired: Seq<FlushedView>,
    oldest: Seq<FlushedView>,
    kept: Map<Seq<char>, BufferView>,
    chat: Seq<char>,
)
    requires
        is_check(m, now, expired, oldest, kept),
        m.dom().finite(),
    ensures
        kept.contains_key(chat) ==> m.contains_key(chat) && kept[chat] == m[chat],
        m.contains_key(chat) && m[chat].touched + 10_000_000_000 < now ==> !kept.contains_key(chat),
        m.contains_key(chat) && m[chat].touched + 10_000_000_000 < now && m[chat].text.len() > 0
            ==> expired.contains(FlushedView { chat_id: chat, text: m[chat].text }),
        m.dom().len() <= 1000 && m.contains_key(chat) && m[chat].touched + 10_000_000_000 >= now
            ==> kept.contains_key(chat),
        kept.dom().len() <= 1000,
{
    let old = stale_set(m, now, STREAM_TIMEOUT);
    let rest = m.remove_keys(old);
    super::buffers::texts_stand_still_after_their_last_piece(m, chat, now, STREAM_TIMEOUT);
    super::buffers::the_oldest_texts_are_taken_out(
        rest,
        kept,
        MAX_BUFFER_COUNT as int,
        chat,
        chat,
    );
    assert(rest.dom().subset_of(m.dom()));
    vstd::set_lib::lemma_len_subset(rest.dom(), m.dom());
    if m.contains_key(chat) && m[chat].touched + 10_000_000_000 < now && m[chat].text.len() > 0 {
        super::buffers::flushed_texts_are_whole(expired, m, old, 0, 0, chat);
    }
}

/// What was wrong with an event is said in plain words.
pub proof fn event_errors_say_what_is_wrong(why: String)
    ensures
        event_error_text(EventError::MissingData) == "Missing event data"@,
        event_error_text(EventError::UnreadableEvent(why)) == "Failed to parse message event"@,
        event_error_text(EventError::UnreadableContent(why)) == "Failed to parse message content"@,
        event_error_text(EventError::MissingChatId) == "Missing chat_id for group message"@,
{
}

/// In JSON, quotation marks and backslashes stand behind a backslash, and so do the
/// letters of the usual control characters. The others are written by their
/// numbers.
pub proof fn special_characters_are_escaped(c: char)
    ensures
        json_char('"') == seq!['\\', '"'],
        json_char('\\') == seq!['\\', '\\'],
        json_char('\n') == seq!['\\', 'n'],
        json_char('\r') == seq!['\\', 'r'],
        json_char('\t') == seq!['\\', 't'],
        json_char('\u{8}') == seq!['\\', 'b'],
        json_char('\u{c}') == seq!['\\', 'f'],
        c == '\u{1b}' ==> json_char(c) == seq!['\\', 'u', '0', '0', '1', 'b'],
        '\u{10}' <= c <= '\u{19}' ==> json_char(c) == seq![
            '\\',
            'u',
            '0',
            '0',
            '1',
            (c as u32 - 0x10 + '0' as u32) as char,
        ],
        '\u{1a}' <= c <= '\u{1f}' ==> json_char(c) == seq![
            '\\',
            'u',
            '0',
            '0',
            '1',
            (c as u32 - 0x1a + 'a' as u32) as char,
        ],
{
}

/// A message is sent to the user or the group that its chat is named after, with the
/// content as it stands; a chat of neither kind is refused.
pub proof fn messages_are_addressed(
    base: &str,
    chat: &ChatId,
    content: String,
    r: Result<SendPlan, String>,
    id: Seq<char>,
)
    requires
        call_ensures(plan_message, (base, chat, content), r),
    ensures
        chat@ == "p2p:"@ + id ==> r is Ok && r->Ok_0.receive_id_type@ == "open_id"@
            && r->Ok_0.receive_id@ == id,
        chat@ == "group:"@ + id ==> r is Ok && r->Ok_0.receive_id_type@ == "chat_id"@
            && r->Ok_0.receive_id@ == id,
        !"p2p:"@.is_prefix_of(chat@) && !"group:"@.is_prefix_of(chat@) ==> r is Err && r->Err_0@
            == "Invalid chat_id format: "@ + chat@,
        r is Ok ==> r->Ok_0.content == content && r->Ok_0.url@ == base@
            + "/open-apis/im/v1/messages"@,
{
    messages_go_to_users_and_groups(id, chat@);
}

/// A text is sent as JSON to the user or the group that its chat is named after.
pub proof fn texts_are_sent_as_json(
    base: &str,
    chat: &ChatId,
    content: &str,
    r: Result<SendPlan, String>,
    id: Seq<char>,
)
    requires
        call_ensures(send_single_message, (base, chat, content), r),
    ensures
        chat@ == "p2p:"@ + id ==> r is Ok && r->Ok_0.receive_id_type@ == "open_id"@
            && r->Ok_0.receive_id@ == id,
        chat@ == "group:"@ + id ==> r is Ok && r->Ok_0.receive_id_type@ == "chat_id"@
            && r->Ok_0.receive_id@ == id,
        r is Ok && (forall|i: int|
            0 <= i < content@.len() ==> ' ' <= #[trigger] content@[i] && content@[i] != '"'
                && content@[i] != '\\') ==> r->Ok_0.content@ == "{\"text\":\""@ + content@ + "\"}"@,
        r is Ok ==> r->Ok_0.url@ == base@ + "/open-apis/im/v1/messages"@,
{
    messages_go_to_users_and_groups(id, chat@);
    if forall|i: int|
        0 <= i < content@.len() ==> ' ' <= #[trigger] content@[i] && content@[i] != '"'
            && content@[i] != '\\' {
        plain_texts_stand_in_json_as_they_are(content@);
    }
}

/// Where the platform is asked for tokens and signs, and how a token is presented.
pub proof fn lark_is_addressed(base: &str, id: &str, token: &str, address: String)
    ensures
        call_ensures(reaction_url, (base, id), address) ==> address@ == base@
            + "/open-apis/im/v1/messages/"@ + id@ + "/reactions"@,
        call_ensures(token_url, (base,), address) ==> address@ == base@
            + "/open-apis/auth/v3/app_access_token/internal"@,
        call_ensures(authorization_header, (token,), address) ==> address@ == "Bearer "@ + token@,
{
}

/// Only texts that users send lead to anything, and an event that should carry one and
/// does not is an error.
pub proof fn other_events_are_passed_over(envelope: &EventEnvelope, channel: &str, r: EventStep)
    requires
        call_ensures(handle_event, (envelope, channel), r),
    ensures
        envelope.event_type@ != "im.message.receive_v1"@ ==> r is Ignore,
        envelope.event_type@ == "im.message.receive_v1"@ && envelope.event is None ==> r
            == EventStep::Failed(EventError::MissingData),
        envelope.event_type@ == "im.message.receive_v1"@ && envelope.event is Some
            && envelope.event->0 is Err ==> r is Failed && r->Failed_0 is UnreadableEvent
            && r->Failed_0->UnreadableEvent_0@ == envelope.event->0->Err_0@,
        envelope.event_type@ == "im.message.receive_v1"@ && envelope.event is Some
            && envelope.event->0 is Ok && envelope.event->0->Ok_0.message_type@ == "text"@
            && envelope.event->0->Ok_0.text is Ok && envelope.event->0->Ok_0.chat_type@ == "p2p"@
            ==> r is Message && r->message.channel_name@ == channel@ && r->message.chat_id@
            == "p2p:"@ + envelope.event->0->Ok_0.sender_open_id@,
{
}

/// A text without tags is read as it is, but for the white space around it; a text
/// that is short enough is sent in one message, and what is wrong with an event is
/// said in plain words.
pub proof fn texts_are_read_and_sent_as_written(
    content: &str,
    read: String,
    parts: Vec<String>,
    e: &EventError,
    word: String,
)
    ensures
        call_ensures(normalize_content, (content,), read) && tagless(content@) ==> read@ == trim(
            content@,
        ),
        call_ensures(normalize_content, (content,), read) ==> tagless(read@),
        call_ensures(send_long_message, (content,), parts) && content@.len() <= 4000 ==> texts(
            parts@,
        ) == seq![content@],
        call_ensures(EventError::message, (e,), word) && *e is MissingData ==> word@
            == "Missing event data"@,
        call_ensures(EventError::message, (e,), word) && *e is MissingChatId ==> word@
            == "Missing chat_id for group message"@,
        call_ensures(EventError::message, (e,), word) && *e is UnreadableEvent ==> word@
            == "Failed to parse message event"@,
        call_ensures(EventError::message, (e,), word) && *e is UnreadableContent ==> word@
            == "Failed to parse message content"@,
{
    if tagless(content@) {
        plain_texts_stay(content@);
    }
    normalized_texts_have_no_tags(content@);
    long_texts_are_numbered(content@, 0);
}

/// Whole texts go out at once; a piece of a text goes out as soon as five hundred
/// characters have come, with all that came before it.
pub proof fn pieces_go_out_by_five_hundred(
    buffers: &mut StreamBuffers,
    chat: &ChatId,
    msg: OutgoingMessage,
    now: u64,
    r: Vec<String>,
    text: Seq<char>,
)
    requires
        call_ensures(handle_outgoing, (buffers, chat, msg, now), r),
    ensures
        msg@ == ReplyView::Text(text) ==> texts(r@) == seq![text] && final(buffers)@ == old(
            buffers,
        )@,
        msg@ == ReplyView::Error(text) ==> texts(r@) == seq!["Error: "@ + text],
        msg@ == ReplyView::StreamChunk(text) && !old(buffers)@.contains_key(chat@) && text.len()
            >= 500 ==> texts(r@) == seq![text] && !final(buffers)@.contains_key(chat@),
        msg@ == ReplyView::StreamChunk(text) && !old(buffers)@.contains_key(chat@) && text.len()
            < 500 ==> r@.len() == 0 && final(buffers)@.contains_key(chat@) && final(
            buffers)@[chat@].text == text,
        msg@ == ReplyView::StreamEnd && old(buffers)@.contains_key(chat@) && old(
            buffers,
        )@[chat@].text.len() > 0 ==> texts(r@) == seq![old(buffers)@[chat@].text] && !final(
            buffers)@.contains_key(chat@),
{
    texts_are_sent_by_five_hundred(old(buffers)@, chat@, text, now);
    assert(texts(r@).len() == r@.len());
    assert(Seq::<char>::empty() + text == text);
}

}
