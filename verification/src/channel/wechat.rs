//! WeChat: polling for messages, answering them, and showing that an answer is
//! on its way.

use super::{plain_mention, ChatId, RawIncoming};
use crate::clock::SECOND;
use crate::number::{decimal, lemma_decimal, to_decimal};
use crate::shared_map::{
    get_stamped, get_text, insert_stamped, insert_text, new_stamped, new_texts, stamped_in, texts_in,
};
use crate::split::{cat, cat4, clip, clipped, copy_opt, join, joined, opt_text, texts};
use crate::text::{digit, trim, trimmed};
use dashmap::DashMap;
use vstd::prelude::*;
use vstd::string::*;

verus! {

/// How many characters a message may have.
pub const MAX_MESSAGE_LENGTH: usize = 2000;

/// How long a typing ticket is used.
pub const TYPING_TICKET_TTL: u64 = 86400 * SECOND;

pub const MSG_TYPE_USER: i64 = 1;

pub const MSG_TYPE_BOT: i64 = 2;

pub const MSG_STATE_FINISH: i64 = 2;

pub const MSG_ITEM_TEXT: i64 = 1;

pub const MSG_ITEM_VOICE: i64 = 3;

/// How many seconds pass before a poll that failed is tried again.
pub const POLL_PAUSE: u64 = 5;

/// How many seconds a poll may take.
pub const POLL_TIMEOUT: u64 = 60;

// ---------------------------------------------------------------------------
// The header with a random number
// ---------------------------------------------------------------------------

/// What base64 gives for some bytes, in the standard alphabet with padding.
pub uninterp spec fn base64_text(bytes: Seq<u8>) -> Seq<char>;

/// `base64::engine::general_purpose::STANDARD.encode`: the text that base64
/// gives for the bytes, four characters for every three of them or part of
/// three. It depends on the bytes alone.
#[verifier::external_body]
fn encode_base64(bytes: &[u8]) -> (r: String)
    requires
        bytes@.len() <= 0x1000_0000,
    ensures
        r@ == base64_text(bytes@),
        r@.len() == (bytes@.len() + 2) / 3 * 4,
{
    base64::Engine::encode(&base64::engine::general_purpose::STANDARD, bytes)
}

/// `rand::thread_rng().gen`: a number that chance decides.
#[verifier::external_body]
fn random_u32() -> u32 {
    rand::Rng::gen(&mut rand::thread_rng())
}

/// The bytes of a number, the least significant first.
pub open spec fn le_bytes(n: u32) -> Seq<u8> {
    seq![
        (n % 256) as u8,
        (n / 256 % 256) as u8,
        (n / 65536 % 256) as u8,
        (n / 16777216 % 256) as u8,
    ]
}

/// A number as the header gives it.
pub fn uin_header(n: u32) -> (r: String)
    ensures
        r@ == base64_text(le_bytes(n)),
        r@.len() == 8,
{
    let mut bytes: Vec<u8> = Vec::new();
    bytes.push((n % 256) as u8);
    bytes.push((n / 256 % 256) as u8);
    bytes.push((n / 65536 % 256) as u8);
    bytes.push((n / 16777216 % 256) as u8);
    assert(bytes@ =~= le_bytes(n));
    encode_base64(bytes.as_slice())
}

/// The header with a random number that every request carries.
pub fn generate_uin_header() -> (r: String)
    ensures
        exists|n: u32| r@ == base64_text(#[trigger] le_bytes(n)),
{
    let n: u32 = random_u32();
    uin_header(n)
}

// ---------------------------------------------------------------------------
// Configuration
// ---------------------------------------------------------------------------

/// The service that is used where none is named.
pub open spec fn default_base_url() -> Seq<char> {
    "https://ilinkai.weixin.qq.com"@
}

/// What a WeChat channel is configured with.
#[derive(Debug, Clone)]
pub struct WeChatConfig {
    pub bot_token: String,
    pub base_url: String,
}

impl WeChatConfig {
    /// A configuration, with the usual service where none is named.
    pub fn new(bot_token: String, base_url: Option<String>) -> (r: Self)
        ensures
            r.bot_token == bot_token,
            r.base_url@ == match opt_text(base_url) {
                Some(url) => url,
                None => default_base_url(),
            },
    {
        let base_url = match base_url {
            Some(url) => url,
            None => "https://ilinkai.weixin.qq.com".to_string(),
        };
        WeChatConfig { bot_token, base_url }
    }
}

/// The name of a message, by a moment in milliseconds and a count.
pub open spec fn client_id(timestamp: nat, count: nat) -> Seq<char> {
    "acpbridge-"@ + decimal(timestamp) + "-"@ + decimal(count)
}

/// The name of the next message, by which the platform tells it from others: made
/// of a moment in milliseconds and a count that goes on with every call.
pub fn generate_client_id(timestamp: u64, counter: &mut u64) -> (r: String)
    ensures
        r@ == client_id(timestamp as nat, *old(counter) as nat),
        *final(counter) == if *old(counter) == u64::MAX {
            0
        } else {
            (*old(counter) + 1) as u64
        },
{
    let moment = to_decimal(timestamp);
    let count = to_decimal(*counter);
    *counter = if *counter == u64::MAX {
        0
    } else {
        *counter + 1
    };
    cat4("acpbridge-", moment.as_str(), "-", count.as_str())
}

// ---------------------------------------------------------------------------
// Messages of users
// ---------------------------------------------------------------------------

#[derive(Debug, Clone)]
pub struct TextItem {
    pub text: String,
}

/// A voice message, with what was understood of it.
#[derive(Debug, Clone)]
pub struct VoiceItem {
    pub text: String,
}

/// A message that another refers to.
#[derive(Debug, Clone)]
pub struct RefMsg {
    pub title: String,
}

/// A part of a message.
#[derive(Debug, Clone)]
pub struct MessageItem {
    pub item_type: i64,
    pub text_item: Option<TextItem>,
    pub voice_item: Option<VoiceItem>,
    pub ref_msg: Option<RefMsg>,
}

/// A message, as the platform delivers it.
#[derive(Debug, Clone)]
pub struct WeixinMessage {
    pub from_user_id: String,
    pub message_type: i64,
    pub context_token: String,
    pub item_list: Vec<MessageItem>,
}

/// A text, if there is anything in it but white space.
pub open spec fn visible(text: Seq<char>) -> Seq<Seq<char>> {
    if trim(text).len() > 0 {
        seq![trim(text)]
    } else {
        Seq::empty()
    }
}

/// What a part of a message says itself: its text, or what was understood of its
/// sound.
pub open spec fn own_text(item: MessageItem) -> Seq<Seq<char>> {
    if item.item_type == MSG_ITEM_TEXT {
        match item.text_item {
            Some(t) => visible(t.text@),
            None => Seq::empty(),
        }
    } else if item.item_type == MSG_ITEM_VOICE {
        match item.voice_item {
            Some(v) => visible(v.text@),
            None => Seq::empty(),
        }
    } else {
        Seq::empty()
    }
}

/// The quotation of a message that a part refers to.
pub open spec fn quoted(item: MessageItem) -> Seq<Seq<char>> {
    match item.ref_msg {
        Some(m) => if trim(m.title@).len() > 0 {
            seq!["> "@ + trim(m.title@)]
        } else {
            Seq::empty()
        },
        None => Seq::empty(),
    }
}

/// The lines of some parts.
pub open spec fn item_lines(items: Seq<MessageItem>) -> Seq<Seq<char>>
    decreases items.len(),
{
    if items.len() == 0 {
        Seq::empty()
    } else {
        item_lines(items.drop_last()) + own_text(items.last()) + quoted(items.last())
    }
}

/// What a message says.
pub open spec fn message_content(msg: WeixinMessage) -> Seq<char> {
    joined(item_lines(msg.item_list@), "\n"@)
}

/// Adds a text, if there is anything in it but white space.
fn push_visible(lines: &mut Vec<String>, text: &str)
    ensures
        texts(final(lines)@) == texts(old(lines)@) + visible(text@),
{
    let t = trimmed(text);
    let ghost before = texts(lines@);
    if t.unicode_len() > 0 {
        lines.push(t.to_string());
        assert(texts(lines@) =~= before + visible(text@));
    } else {
        assert(texts(lines@) =~= before + visible(text@));
    }
}

/// What a message says, one line for each part and each quotation.
pub fn extract_message_content(msg: &WeixinMessage) -> (r: String)
    ensures
        r@ == message_content(*msg),
{
    let mut lines: Vec<String> = Vec::new();
    let ghost items = msg.item_list@;
    let mut i: usize = 0;
    proof {
        assert(texts(lines@) =~= Seq::<Seq<char>>::empty());
    }
    while i < msg.item_list.len()
        invariant
            i <= msg.item_list@.len(),
            items == msg.item_list@,
            texts(lines@) == item_lines(items.take(i as int)),
        decreases msg.item_list@.len() - i,
    {
        let item = &msg.item_list[i];
        let ghost before = texts(lines@);
        proof {
            assert(items.take(i + 1).drop_last() == items.take(i as int));
            assert(items.take(i + 1).last() == *item);
        }
        if item.item_type == MSG_ITEM_TEXT {
            if let Some(t) = &item.text_item {
                push_visible(&mut lines, t.text.as_str());
            }
        } else if item.item_type == MSG_ITEM_VOICE {
            if let Some(v) = &item.voice_item {
                push_visible(&mut lines, v.text.as_str());
            }
        }
        proof {
            assert(texts(lines@) =~= before + own_text(*item));
        }
        let ghost middle = texts(lines@);
        if let Some(m) = &item.ref_msg {
            let t = trimmed(m.title.as_str());
            if t.unicode_len() > 0 {
                lines.push(cat("> ", t));
            }
        }
        proof {
            assert(texts(lines@) =~= middle + quoted(*item));
        }
        i += 1;
    }
    proof {
        assert(items.take(items.len() as int) == items);
    }
    join(&lines, "\n")
}

// ---------------------------------------------------------------------------
// Polling
// ---------------------------------------------------------------------------

/// The platform's answer to a poll.
#[derive(Debug, Clone)]
pub struct GetUpdatesResponse {
    pub ret: Option<i64>,
    pub errcode: Option<i64>,
    pub msgs: Vec<WeixinMessage>,
    pub get_updates_buf: Option<String>,
}

/// How many characters of an answer that cannot be read are shown.
pub const PREVIEW_LENGTH: usize = 200;

/// The beginning of an answer that cannot be read, marked where there is more.
pub fn preview(body: &str) -> (r: String)
    ensures
        r@ == if body@.len() > 200 {
            body@.take(200) + "..."@
        } else {
            body@
        },
{
    if body.unicode_len() > PREVIEW_LENGTH {
        cat(body.substring_char(0, PREVIEW_LENGTH), "...")
    } else {
        body.to_string()
    }
}

/// What came of a poll.
#[derive(Debug, Clone)]
pub enum PollOutcome {
    /// The request failed, was refused, or its answer could not be read.
    Failed,
    Updates(GetUpdatesResponse),
}

/// What follows a poll.
#[derive(Debug, Clone)]
pub enum PollStep {
    /// Wait so many seconds, then poll again.
    Pause { seconds: u64 },
    /// Take these messages, then poll again.
    Process(Vec<WeixinMessage>),
}

/// Whether an answer reports an error.
pub open spec fn is_api_error(response: GetUpdatesResponse) -> bool {
    (response.ret matches Some(r) && r != 0) || (response.errcode matches Some(e) && e != 0)
}

/// The course of polling: where the last answer left off.
#[derive(Debug)]
pub struct PollLoop {
    sync_buf: Option<String>,
}

impl View for PollLoop {
    type V = Option<Seq<char>>;

    closed spec fn view(&self) -> Option<Seq<char>> {
        opt_text(self.sync_buf)
    }
}

impl PollLoop {
    /// The first poll starts from nowhere.
    pub fn new() -> (r: Self)
        ensures
            r@ is None,
    {
        PollLoop { sync_buf: None }
    }

    /// Where the next poll goes on from.
    pub fn request(&self) -> (r: Option<String>)
        ensures
            opt_text(r) == self@,
    {
        copy_opt(&self.sync_buf)
    }

    /// Takes what came of a poll. Only an answer without error moves the place
    /// where the next one goes on from.
    pub fn on_poll(&mut self, outcome: PollOutcome) -> (r: PollStep)
        ensures
            match outcome {
                PollOutcome::Failed => r == (PollStep::Pause { seconds: POLL_PAUSE })
                    && final(self)@ == old(self)@,
                PollOutcome::Updates(response) => if is_api_error(response) {
                    r == (PollStep::Pause { seconds: POLL_PAUSE }) && final(self)@ == old(self)@
                } else {
                    r == PollStep::Process(response.msgs) && final(self)@ == match opt_text(
                        response.get_updates_buf,
                    ) {
                        Some(buf) => Some(buf),
                        None => old(self)@,
                    }
                },
            },
    {
        let response = match outcome {
            PollOutcome::Failed => {
                return PollStep::Pause { seconds: POLL_PAUSE };
            },
            PollOutcome::Updates(response) => response,
        };
        let bad_ret = match response.ret {
            Some(r) => r != 0,
            None => false,
        };
        let bad_code = match response.errcode {
            Some(e) => e != 0,
            None => false,
        };
        if bad_ret || bad_code {
            return PollStep::Pause { seconds: POLL_PAUSE };
        }
        if let Some(buf) = response.get_updates_buf {
            self.sync_buf = Some(buf);
        }
        PollStep::Process(response.msgs)
    }
}

// ---------------------------------------------------------------------------
// The adapter
// ---------------------------------------------------------------------------

/// A channel on WeChat: the tokens under which users can be answered, and the
/// tickets under which they can be shown that an answer is on its way.
pub struct WeChatAdapter {
    config: WeChatConfig,
    context_tokens: DashMap<String, String>,
    typing_tickets: DashMap<String, (String, u64)>,
}

/// A message that is sent.
#[derive(Debug, Clone)]
pub struct MessagePayload {
    pub from_user_id: String,
    pub to_user_id: String,
    pub client_id: String,
    pub message_type: i64,
    pub message_state: i64,
    pub context_token: String,
    pub item_list: Vec<MessageItem>,
}

/// A request that sends a message.
#[derive(Debug, Clone)]
pub struct SendMessageRequest {
    pub msg: MessagePayload,
    pub channel_version: String,
}

/// The version of this channel.
pub open spec fn channel_version() -> Seq<char> {
    "acpbridge-0.1.0"@
}

/// The version of this channel.
pub fn current_version() -> (r: String)
    ensures
        r@ == channel_version(),
{
    "acpbridge-0.1.0".to_string()
}

/// How a user is shown that an answer is on its way.
#[derive(Debug, Clone)]
pub enum TypingStep {
    /// With this ticket.
    Send { ticket: String },
    /// A ticket has to be fetched first, with this token.
    Fetch { context_token: String },
    /// Not at all: there is no token to fetch a ticket with.
    Refuse,
}

/// How a user is shown that an answer is on its way, as text.
pub enum TypingView {
    Send { ticket: Seq<char> },
    Fetch { context_token: Seq<char> },
    Refuse,
}

impl View for TypingStep {
    type V = TypingView;

    open spec fn view(&self) -> TypingView {
        match *self {
            TypingStep::Send { ticket } => TypingView::Send { ticket: ticket@ },
            TypingStep::Fetch { context_token } => TypingView::Fetch {
                context_token: context_token@,
            },
            TypingStep::Refuse => TypingView::Refuse,
        }
    }
}

/// A message of a user that is to be passed on, and what is shown meanwhile.
#[derive(Debug, Clone)]
pub struct Received {
    pub raw: RawIncoming,
    pub typing: TypingStep,
}

/// How a user is shown that an answer is on its way: with the ticket that is
/// there, as long as it is good, and else with one that is fetched.
pub open spec fn typing_step(
    tickets: Map<Seq<char>, (Seq<char>, u64)>,
    tokens: Map<Seq<char>, Seq<char>>,
    user: Seq<char>,
    now: u64,
) -> TypingView {
    if tickets.contains_key(user) && tickets[user].1 + TYPING_TICKET_TTL > now {
        TypingView::Send { ticket: tickets[user].0 }
    } else if tokens.contains_key(user) && tokens[user].len() > 0 {
        TypingView::Fetch { context_token: tokens[user] }
    } else {
        TypingView::Refuse
    }
}

/// The tokens after a message: a user's message brings the token under which it
/// is answered, unless it brings none.
pub open spec fn tokens_after(tokens: Map<Seq<char>, Seq<char>>, msg: WeixinMessage) -> Map<
    Seq<char>,
    Seq<char>,
> {
    if msg.message_type == MSG_TYPE_USER && msg.context_token@.len() > 0 {
        tokens.insert(msg.from_user_id@, msg.context_token@)
    } else {
        tokens
    }
}

impl WeChatAdapter {
    /// The tokens under which users can be answered.
    pub closed spec fn tokens(&self) -> Map<Seq<char>, Seq<char>> {
        texts_in(self.context_tokens)
    }

    /// The tickets of users, and when they were fetched.
    pub closed spec fn tickets(&self) -> Map<Seq<char>, (Seq<char>, u64)> {
        stamped_in(self.typing_tickets)
    }

    /// The configuration.
    pub closed spec fn settings(&self) -> WeChatConfig {
        self.config
    }

    /// A channel that has heard from nobody.
    pub fn new(config: WeChatConfig) -> (r: Self)
        ensures
            r.settings() == config,
            r.tokens() == Map::<Seq<char>, Seq<char>>::empty(),
            r.tickets() == Map::<Seq<char>, (Seq<char>, u64)>::empty(),
    {
        let r = WeChatAdapter {
            config,
            context_tokens: new_texts(),
            typing_tickets: new_stamped(),
        };
        assert(r.tokens() =~= Map::<Seq<char>, Seq<char>>::empty());
        assert(r.tickets() =~= Map::<Seq<char>, (Seq<char>, u64)>::empty());
        r
    }

    /// The configuration.
    pub fn config(&self) -> (r: &WeChatConfig)
        ensures
            *r == self.settings(),
    {
        &self.config
    }

    /// The platform's name.
    pub fn platform(&self) -> (r: &'static str)
        ensures
            r@ == "wechat"@,
    {
        "wechat"
    }

    /// How many characters a message may have.
    pub fn max_message_length(&self) -> (r: usize)
        ensures
            r == MAX_MESSAGE_LENGTH,
    {
        MAX_MESSAGE_LENGTH
    }

    /// How a bot is mentioned: by name, as the platform has no mentions.
    pub fn format_mention(
        &self,
        target_bot: &str,
        target_channel: &Option<String>,
        message: &str,
    ) -> (r: String)
        ensures
            r@ == plain_mention(target_bot@, message@),
    {
        cat4("@", target_bot, " ", message)
    }

    /// The address of one of the service's functions.
    pub fn endpoint(&self, name: &str) -> (r: String)
        ensures
            r@ == self.settings().base_url@ + "/ilink/bot/"@ + name@,
    {
        crate::split::cat3(self.config.base_url.as_str(), "/ilink/bot/", name)
    }

    /// The value of the header that presents the token.
    pub fn authorization(&self) -> (r: String)
        ensures
            r@ == "Bearer "@ + self.settings().bot_token@,
    {
        cat("Bearer ", self.config.bot_token.as_str())
    }

    /// Takes a message: what is to be passed on, if it is one of a user and says
    /// anything.
    pub fn process_incoming_message(&mut self, msg: &WeixinMessage, now: u64) -> (r: Option<
        Received,
    >)
        ensures
            final(self).settings() == old(self).settings(),
            final(self).tickets() == old(self).tickets(),
            final(self).tokens() == tokens_after(old(self).tokens(), *msg),
            match r {
                Some(received) => {
                    &&& msg.message_type == MSG_TYPE_USER
                    &&& message_content(*msg).len() > 0
                    &&& received.raw.chat_id@ == msg.from_user_id@
                    &&& received.raw.text@ == message_content(*msg)
                    &&& !received.raw.is_group
                    &&& !received.raw.is_mentioned
                    &&& received.typing@ == typing_step(
                        old(self).tickets(),
                        tokens_after(old(self).tokens(), *msg),
                        msg.from_user_id@,
                        now,
                    )
                },
                None => msg.message_type != MSG_TYPE_USER || message_content(*msg).len() == 0,
            },
    {
        if msg.message_type != MSG_TYPE_USER {
            return None;
        }
        if msg.context_token.as_str().unicode_len() > 0 {
            insert_text(
                &mut self.context_tokens,
                msg.from_user_id.clone(),
                msg.context_token.clone(),
            );
        }
        let text = extract_message_content(msg);
        if text.as_str().unicode_len() == 0 {
            return None;
        }
        let typing = self.send_typing_with_ticket(msg.from_user_id.as_str(), now);
        Some(
            Received {
                raw: RawIncoming {
                    chat_id: ChatId(msg.from_user_id.clone()),
                    text,
                    is_group: false,
                    is_mentioned: false,
                },
                typing,
            },
        )
    }

    /// How a user is shown that an answer is on its way.
    pub fn send_typing_with_ticket(&self, to_user_id: &str, now: u64) -> (r: TypingStep)
        ensures
            r@ == typing_step(self.tickets(), self.tokens(), to_user_id@, now),
    {
        if let Some((ticket, fetched)) = get_stamped(&self.typing_tickets, to_user_id) {
            if fetched > now || now - fetched < TYPING_TICKET_TTL {
                return TypingStep::Send { ticket };
            }
        }
        match get_text(&self.context_tokens, to_user_id) {
            Some(context_token) => if context_token.as_str().unicode_len() > 0 {
                TypingStep::Fetch { context_token }
            } else {
                TypingStep::Refuse
            },
            None => TypingStep::Refuse,
        }
    }

    /// Takes the ticket that was fetched for a user, if the service gave one; it
    /// is kept for the next time.
    pub fn ticket_fetched(&mut self, user_id: &str, ticket: Option<String>, now: u64) -> (r: Result<
        String,
        String,
    >)
        ensures
            final(self).settings() == old(self).settings(),
            final(self).tokens() == old(self).tokens(),
            match r {
                Ok(t) => {
                    &&& opt_text(ticket) == Some(t@)
                    &&& t@.len() > 0
                    &&& final(self).tickets() == old(self).tickets().insert(user_id@, (t@, now))
                },
                Err(e) => {
                    &&& opt_text(ticket) matches Some(t) ==> t.len() == 0
                    &&& e@ == "No typing_ticket in getConfig response"@
                    &&& final(self).tickets() == old(self).tickets()
                },
            },
    {
        match ticket {
            Some(ticket) => if ticket.as_str().unicode_len() > 0 {
                insert_stamped(&mut self.typing_tickets, user_id.to_string(), ticket.clone(), now);
                return Ok(ticket);
            },
            None => {},
        }
        Err("No typing_ticket in getConfig response".to_string())
    }

    /// The request that sends a text to a user, at a moment in milliseconds.
    pub fn send_text(
        &self,
        chat_id: &ChatId,
        text: &str,
        timestamp: u64,
        counter: &mut u64,
    ) -> (r: Result<SendMessageRequest, String>)
        ensures
            ({
                let known = self.tokens().contains_key(chat_id@) && self.tokens()[chat_id@].len()
                    > 0;
                match r {
                    Ok(request) => {
                        &&& known
                        &&& is_message_to(
                            request,
                            chat_id@,
                            self.tokens()[chat_id@],
                            clipped(text@, MAX_MESSAGE_LENGTH as int),
                        )
                        &&& request.msg.client_id@ == client_id(
                            timestamp as nat,
                            *old(counter) as nat,
                        )
                        &&& *final(counter) == if *old(counter) == u64::MAX {
                            0
                        } else {
                            (*old(counter) + 1) as u64
                        }
                    },
                    Err(e) => {
                        &&& !known
                        &&& e@ == "context_token is required for sendMessage but missing for user "@
                            + chat_id@
                        &&& *final(counter) == *old(counter)
                    },
                }
            }),
    {
        match get_text(&self.context_tokens, chat_id.0.as_str()) {
            Some(context_token) => if context_token.as_str().unicode_len() > 0 {
                return Ok(send_text_message(chat_id, text, context_token, timestamp, counter));
            },
            None => {},
        }
        Err(
            cat(
                "context_token is required for sendMessage but missing for user ",
                chat_id.0.as_str(),
            ),
        )
    }
}

/// Whether a request sends a text to a user, as a complete message of a bot.
pub open spec fn is_message_to(
    request: SendMessageRequest,
    user: Seq<char>,
    context_token: Seq<char>,
    text: Seq<char>,
) -> bool {
    let items = request.msg.item_list@;
    &&& request.channel_version@ == channel_version()
    &&& request.msg.from_user_id@ == Seq::<char>::empty()
    &&& request.msg.to_user_id@ == user
    &&& request.msg.message_type == MSG_TYPE_BOT
    &&& request.msg.message_state == MSG_STATE_FINISH
    &&& request.msg.context_token@ == context_token
    &&& items.len() == 1
    &&& items[0].item_type == MSG_ITEM_TEXT
    &&& items[0].text_item matches Some(t)
    &&& t.text@ == text
    &&& items[0].voice_item is None
    &&& items[0].ref_msg is None
}

/// The request that sends a text to a user under a token.
pub fn send_text_message(
    chat_id: &ChatId,
    content: &str,
    context_token: String,
    timestamp: u64,
    counter: &mut u64,
) -> (r: SendMessageRequest)
    ensures
        is_message_to(
            r,
            chat_id@,
            context_token@,
            clipped(content@, MAX_MESSAGE_LENGTH as int),
        ),
        r.msg.client_id@ == client_id(timestamp as nat, *old(counter) as nat),
        *final(counter) == if *old(counter) == u64::MAX {
            0
        } else {
            (*old(counter) + 1) as u64
        },
{
    let mut item_list: Vec<MessageItem> = Vec::new();
    item_list.push(
        MessageItem {
            item_type: MSG_ITEM_TEXT,
            text_item: Some(TextItem { text: clip(content, MAX_MESSAGE_LENGTH) }),
            voice_item: None,
            ref_msg: None,
        },
    );
    SendMessageRequest {
        msg: MessagePayload {
            from_user_id: String::new(),
            to_user_id: chat_id.0.clone(),
            client_id: generate_client_id(timestamp, counter),
            message_type: MSG_TYPE_BOT,
            message_state: MSG_STATE_FINISH,
            context_token,
            item_list,
        },
        channel_version: current_version(),
    }
}

// ---------------------------------------------------------------------------
// Laws
// ---------------------------------------------------------------------------

/// What parts of messages say does not depend on what stands around them: the
/// lines of two lists of parts, one after the other, are the lines of the one
/// followed by those of the other.
pub proof fn parts_speak_for_themselves(a: Seq<MessageItem>, b: Seq<MessageItem>)
    ensures
        item_lines(a + b) == item_lines(a) + item_lines(b),
    decreases b.len(),
{
    if b.len() == 0 {
        assert(a + b == a);
        assert(item_lines(a) + item_lines(b) == item_lines(a));
    } else {
        let front = b.drop_last();
        parts_speak_for_themselves(a, front);
        assert((a + b).drop_last() == a + front);
        assert((a + b).last() == b.last());
        assert(item_lines(a) + item_lines(front) + own_text(b.last()) + quoted(b.last())
            == item_lines(a) + (item_lines(front) + own_text(b.last()) + quoted(b.last())));
    }
}

/// No two messages have the same name, unless they have the same moment and the
/// same count.
pub proof fn client_ids_are_unique(moment: nat, count: nat, other_moment: nat, other_count: nat)
    requires
        client_id(moment, count) == client_id(other_moment, other_count),
    ensures
        moment == other_moment,
        count == other_count,
{
    let prefix = "acpbridge-"@;
    let id = client_id(moment, count);
    let a = decimal(moment);
    let b = decimal(other_moment);
    let rest = id.skip(prefix.len() as int);
    reveal_strlit("-");
    lemma_decimal(moment);
    lemma_decimal(other_moment);
    assert(rest == a + "-"@ + decimal(count));
    assert(rest == b + "-"@ + decimal(other_count));
    assert(rest[a.len() as int] == '-');
    assert(rest[b.len() as int] == '-');
    assert(a.len() == b.len()) by {
        if a.len() < b.len() {
            assert(digit(b[a.len() as int]));
        }
        if b.len() < a.len() {
            assert(digit(a[b.len() as int]));
        }
    }
    assert(a == rest.take(a.len() as int));
    assert(b == rest.take(a.len() as int));
    assert(decimal(count) == rest.skip(a.len() as int + 1));
    assert(decimal(other_count) == rest.skip(a.len() as int + 1));
    lemma_decimal(count);
    lemma_decimal(other_count);
}

/// A user whose message brought a token can be answered.
pub proof fn users_can_be_answered(tokens: Map<Seq<char>, Seq<char>>, msg: WeixinMessage)
    requires
        msg.message_type == MSG_TYPE_USER,
        msg.context_token@.len() > 0,
    ensures
        tokens_after(tokens, msg).contains_key(msg.from_user_id@),
        tokens_after(tokens, msg)[msg.from_user_id@].len() > 0,
        forall|user: Seq<char>|
            user != msg.from_user_id@ && tokens.contains_key(user) ==> #[trigger] tokens_after(
                tokens,
                msg,
            )[user] == tokens[user],
{
}

/// A ticket is fetched once a day: after it was kept it is used, without another
/// fetch, for a day and no longer.
pub proof fn tickets_last_a_day(
    tickets: Map<Seq<char>, (Seq<char>, u64)>,
    tokens: Map<Seq<char>, Seq<char>>,
    user: Seq<char>,
    ticket: Seq<char>,
    fetched: u64,
    now: u64,
)
    ensures
        typing_step(tickets.insert(user, (ticket, fetched)), tokens, user, now) is Send <==> now
            - fetched < TYPING_TICKET_TTL,
        now - fetched < TYPING_TICKET_TTL ==> typing_step(
            tickets.insert(user, (ticket, fetched)),
            tokens,
            user,
            now,
        ) == (TypingView::Send { ticket }),
{
}

/// A text says what stands in it, and a voice message what was understood of it,
/// without the white space around it; what is only white space says nothing, and
/// nor does anything that is neither.
pub proof fn texts_and_voices_are_understood(item: MessageItem)
    ensures
        item.item_type == 1 ==> (match item.text_item {
            Some(t) => own_text(item) == if trim(t.text@).len() > 0 {
                seq![trim(t.text@)]
            } else {
                Seq::empty()
            },
            None => own_text(item).len() == 0,
        }),
        item.item_type == 3 ==> (match item.voice_item {
            Some(v) => own_text(item) == if trim(v.text@).len() > 0 {
                seq![trim(v.text@)]
            } else {
                Seq::empty()
            },
            None => own_text(item).len() == 0,
        }),
        item.item_type != 1 && item.item_type != 3 ==> own_text(item).len() == 0,
{
}

/// What a part refers to is quoted behind it, whatever the part is.
pub proof fn references_are_quoted(item: MessageItem)
    ensures
        item.ref_msg is None ==> quoted(item).len() == 0,
        item.ref_msg matches Some(m) ==> quoted(item) == if trim(m.title@).len() > 0 {
            seq!["> "@ + trim(m.title@)]
        } else {
            Seq::empty()
        },
        item_lines(seq![item]) == own_text(item) + quoted(item),
{
    assert(seq![item].drop_last() == Seq::<MessageItem>::empty());
    assert(item_lines(Seq::empty()) == Seq::<Seq<char>>::empty());
    assert(Seq::<Seq<char>>::empty() + own_text(item) + quoted(item) == own_text(item) + quoted(
        item,
    ));
}

/// A message that ends with a part is read as it would be without it, with the
/// lines of the part below.
pub proof fn every_part_has_its_lines(msg: WeixinMessage, item: MessageItem, other: WeixinMessage)
    requires
        other.item_list@ == msg.item_list@.push(item),
        item.item_type == 1,
        item.ref_msg is None,
        item.text_item is Some && trim(item.text_item->0.text@).len() > 0,
    ensures
        message_content(other) == if item_lines(msg.item_list@).len() == 0 {
            trim(item.text_item->0.text@)
        } else {
            message_content(msg) + "\n"@ + trim(item.text_item->0.text@)
        },
{
    let lines = item_lines(msg.item_list@);
    let text = trim(item.text_item->0.text@);
    assert(other.item_list@.drop_last() == msg.item_list@);
    assert(item_lines(other.item_list@) == lines.push(text));
    crate::split::separators_stand_between(lines, text, "\n"@);
    if lines.len() == 0 {
        assert(lines.push(text) == seq![text]);
    }
}

/// An answer reports an error where one of its two codes is there and is not zero.
pub proof fn codes_other_than_zero_are_errors(response: GetUpdatesResponse)
    ensures
        is_api_error(response) <==> !(response.ret is None || response.ret == Some(0i64)) || !(
        response.errcode is None || response.errcode == Some(0i64)),
        POLL_PAUSE == 5 && POLL_TIMEOUT == 60,
{
}

/// A user is shown that an answer is on its way with a ticket that is less than a
/// day old; else a ticket is fetched with the user's token, and without a token
/// nothing is shown.
pub proof fn tickets_are_fetched_with_the_token(
    tickets: Map<Seq<char>, (Seq<char>, u64)>,
    tokens: Map<Seq<char>, Seq<char>>,
    user: Seq<char>,
    now: u64,
)
    ensures
        ({
            let good = tickets.contains_key(user) && now < tickets[user].1 + 86_400_000_000_000;
            let known = tokens.contains_key(user) && tokens[user].len() > 0;
            &&& good ==> typing_step(tickets, tokens, user, now) == (TypingView::Send {
                ticket: tickets[user].0,
            })
            &&& !good && known ==> typing_step(tickets, tokens, user, now) == (TypingView::Fetch {
                context_token: tokens[user],
            })
            &&& !good && !known ==> typing_step(tickets, tokens, user, now) is Refuse
        }),
{
}

/// The token that a user's message brings is kept for that user, in place of an
/// earlier one. One that brings none, or that no user sent, changes nothing.
pub proof fn the_latest_token_is_kept(tokens: Map<Seq<char>, Seq<char>>, msg: WeixinMessage)
    ensures
        msg.message_type == 1 && msg.context_token@.len() > 0 ==> tokens_after(tokens, msg)
            == tokens.insert(msg.from_user_id@, msg.context_token@),
        msg.message_type != 1 || msg.context_token@.len() == 0 ==> tokens_after(tokens, msg)
            == tokens,
{
}

/// A text is sent to its user under the user's token, complete and as the message
/// of a bot, and holds nothing but the text.
pub proof fn requests_hold_the_text(
    request: SendMessageRequest,
    user: Seq<char>,
    token: Seq<char>,
    text: Seq<char>,
)
    requires
        is_message_to(request, user, token, clipped(text, MAX_MESSAGE_LENGTH as int)),
    ensures
        request.channel_version@ == "acpbridge-0.1.0"@,
        request.msg.from_user_id@.len() == 0,
        request.msg.to_user_id@ == user,
        request.msg.message_type == 2,
        request.msg.message_state == 2,
        request.msg.context_token@ == token,
        request.msg.item_list@.len() == 1,
        ({
            let item = request.msg.item_list@[0];
            &&& item.item_type == 1
            &&& item.voice_item is None && item.ref_msg is None
            &&& item.text_item is Some
            &&& item.text_item->0.text@ == if text.len() <= 2000 {
                text
            } else {
                text.take(1997) + seq!['.', '.', '.']
            }
        }),
{
    crate::split::clipped_texts_end_in_dots(text, 2000);
}

/// A message is named after its moment and its count; the service that is used
/// where none is named has a fixed address.
pub proof fn messages_are_named_after_their_moment(moment: nat, count: nat)
    ensures
        client_id(moment, count) == "acpbridge-"@ + decimal(moment) + "-"@ + decimal(count),
        default_base_url() == "https://ilinkai.weixin.qq.com"@,
{
}

/// The bytes of a number make it up: the first counts once, and each that follows
/// 256 times as much as the one before.
pub proof fn bytes_make_up_the_number(n: u32)
    ensures
        le_bytes(n).len() == 4,
        n == le_bytes(n)[0] + 256 * le_bytes(n)[1] + 65536 * le_bytes(n)[2] + 16777216
            * le_bytes(n)[3],
{
}

/// How a user is shown that an answer is on its way is taken by the ticket or the
/// token that it holds.
pub proof fn typing_is_taken_by_ticket_and_token(text: String)
    ensures
        (TypingStep::Send { ticket: text })@ == (TypingView::Send { ticket: text@ }),
        (TypingStep::Fetch { context_token: text })@ == (TypingView::Fetch { context_token: text@ }),
        TypingStep::Refuse@ == TypingView::Refuse,
{
}

/// Only an answer without error moves the place where the next poll goes on from; a
/// poll that failed, or whose answer reports an error, is tried again after five
/// seconds from the same place.
pub proof fn polls_go_on_where_they_left_off(
    polls: &mut PollLoop,
    outcome: PollOutcome,
    r: PollStep,
    after: &PollLoop,
    place: Option<String>,
    response: GetUpdatesResponse,
)
    requires
        call_ensures(PollLoop::on_poll, (polls, outcome), r),
        *after == *final(polls),
        call_ensures(PollLoop::request, (after,), place),
    ensures
        outcome is Failed ==> r == (PollStep::Pause { seconds: 5 }) && opt_text(place) == old(
            polls,
        )@,
        outcome == PollOutcome::Updates(response) && (response.ret == Some(1i64)
            || response.errcode == Some(1i64)) ==> r == (PollStep::Pause { seconds: 5 })
            && opt_text(place) == old(polls)@,
        outcome == PollOutcome::Updates(response) && response.ret is None
            && response.errcode is None ==> r == PollStep::Process(response.msgs) && (
        response.get_updates_buf is Some ==> opt_text(place) == Some(
            response.get_updates_buf->0@,
        )) && (response.get_updates_buf is None ==> opt_text(place) == old(polls)@),
{
}

/// A user's message is passed on with what it says; the token that it brings is the
/// one under which the user is answered.
pub proof fn users_are_answered_under_their_token(
    adapter: &mut WeChatAdapter,
    msg: &WeixinMessage,
    now: u64,
    received: Option<Received>,
    after: &WeChatAdapter,
    chat: &ChatId,
    text: &str,
    moment: u64,
    counter: &mut u64,
    r: Result<SendMessageRequest, String>,
)
    requires
        call_ensures(WeChatAdapter::process_incoming_message, (adapter, msg, now), received),
        *after == *final(adapter),
        call_ensures(WeChatAdapter::send_text, (after, chat, text, moment, counter), r),
        chat@ == msg.from_user_id@,
    ensures
        received is Some <==> msg.message_type == 1 && message_content(*msg).len() > 0,
        received is Some ==> {
            &&& received->0.raw.chat_id@ == msg.from_user_id@
            &&& received->0.raw.text@ == message_content(*msg)
            &&& !received->0.raw.is_group && !received->0.raw.is_mentioned
        },
        msg.message_type == 1 && msg.context_token@.len() > 0 ==> r is Ok
            && r->Ok_0.msg.context_token@ == msg.context_token@ && r->Ok_0.msg.to_user_id@ == chat@
            && r->Ok_0.msg.client_id@ == client_id(moment as nat, *old(counter) as nat),
        r is Ok && *old(counter) < u64::MAX ==> *final(counter) == *old(counter) + 1,
        r is Err ==> r->Err_0@ == "context_token is required for sendMessage but missing for user "@
            + chat@ && *final(counter) == *old(counter),
{
}

/// A ticket that was fetched is the one that is used next, for a day; an answer without
/// a ticket is an error, and changes nothing.
pub proof fn fetched_tickets_are_used(
    adapter: &mut WeChatAdapter,
    user: &str,
    ticket: Option<String>,
    now: u64,
    r: Result<String, String>,
    after: &WeChatAdapter,
    later: u64,
    step: TypingStep,
)
    requires
        call_ensures(WeChatAdapter::ticket_fetched, (adapter, user, ticket, now), r),
        *after == *final(adapter),
        call_ensures(WeChatAdapter::send_typing_with_ticket, (after, user, later), step),
    ensures
        r is Ok <==> ticket is Some && ticket->0@.len() > 0,
        r is Ok ==> r->Ok_0@ == ticket->0@,
        r is Ok && later < now + 86_400_000_000_000 ==> step@ == (TypingView::Send {
            ticket: ticket->0@,
        }),
        r is Ok && later >= now + 86_400_000_000_000 ==> !(step@ is Send),
        r is Err ==> r->Err_0@ == "No typing_ticket in getConfig response"@ && final(adapter).tickets() == old(adapter).tickets(),
{
}

/// What the adapter says of its platform, and where and how the service is asked.
pub proof fn wechat_is_described(
    adapter: &WeChatAdapter,
    word: &'static str,
    n: usize,
    name: &str,
    text: String,
    bot: &str,
    channel: &Option<String>,
    message: &str,
)
    ensures
        call_ensures(WeChatAdapter::platform, (adapter,), word) ==> word@ == "wechat"@,
        call_ensures(WeChatAdapter::max_message_length, (adapter,), n) ==> n == 2000,
        call_ensures(WeChatAdapter::endpoint, (adapter, name), text) ==> text@
            == adapter.settings().base_url@ + "/ilink/bot/"@ + name@,
        call_ensures(WeChatAdapter::authorization, (adapter,), text) ==> text@ == "Bearer "@
            + adapter.settings().bot_token@,
        call_ensures(WeChatAdapter::format_mention, (adapter, bot, channel, message), text)
            ==> text@ == "@"@ + bot@ + " "@ + message@,
        call_ensures(current_version, (), text) ==> text@ == "acpbridge-0.1.0"@,
{
}

/// An answer that cannot be read is shown by its first two hundred characters, and a
/// service that is named is the one that is asked.
pub proof fn long_answers_are_shown_in_part(
    body: &str,
    shown: String,
    token: String,
    address: Option<String>,
    config: WeChatConfig,
)
    ensures
        call_ensures(preview, (body,), shown) && body@.len() <= 200 ==> shown@ == body@,
        call_ensures(preview, (body,), shown) && body@.len() > 200 ==> shown@ == body@.take(200)
            + "..."@,
        call_ensures(WeChatConfig::new, (token, address), config) ==> config.bot_token == token && (
        address is Some ==> config.base_url@ == address->0@) && (address is None
            ==> config.base_url@ == "https://ilinkai.weixin.qq.com"@),
{
}

/// No two messages in a row have the same name, whenever they are sent.
pub proof fn names_of_messages_change(
    moment: u64,
    counter: &mut u64,
    name: String,
    later: u64,
    after: &mut u64,
    next: String,
)
    requires
        call_ensures(generate_client_id, (moment, counter), name),
        *old(after) == *final(counter),
        call_ensures(generate_client_id, (later, after), next),
    ensures
        name@ != next@,
{
    if name@ == next@ {
        client_ids_are_unique(
            moment as nat,
            *old(counter) as nat,
            later as nat,
            *old(after) as nat,
        );
    }
}

/// A message says what its parts say, and a request that is made for a text holds it
/// under its token.
pub proof fn messages_are_read_and_made(
    msg: &WeixinMessage,
    said: String,
    chat: &ChatId,
    content: &str,
    token: String,
    moment: u64,
    counter: &mut u64,
    request: SendMessageRequest,
    n: u32,
    header: String,
    config: WeChatConfig,
    adapter: WeChatAdapter,
)
    ensures
        call_ensures(extract_message_content, (msg,), said) ==> said@ == joined(
            item_lines(msg.item_list@),
            "\n"@,
        ),
        call_ensures(send_text_message, (chat, content, token, moment, counter), request) ==> {
            &&& request.msg.to_user_id@ == chat@
            &&& request.msg.context_token@ == token@
            &&& request.msg.message_type == 2
            &&& request.msg.item_list@.len() == 1
            &&& content@.len() <= 2000 ==> request.msg.item_list@[0].text_item->0.text@ == content@
            &&& request.msg.client_id@ == "acpbridge-"@ + decimal(moment as nat) + "-"@ + decimal(
                *old(counter) as nat,
            )
        },
        call_ensures(uin_header, (n,), header) ==> header@ == base64_text(le_bytes(n)),
        call_ensures(WeChatAdapter::new, (config,), adapter) ==> adapter.settings() == config
            && adapter.tokens() == Map::<Seq<char>, Seq<char>>::empty() && adapter.tickets()
            == Map::<Seq<char>, (Seq<char>, u64)>::empty(),
{
    crate::split::clipped_texts_end_in_dots(content@, 2000);
}

/// A user's message is shown to be on its way with a ticket that is there, and else
/// with one that is fetched under the token that the message brought.
pub proof fn answers_are_announced(
    adapter: &mut WeChatAdapter,
    msg: &WeixinMessage,
    now: u64,
    received: Option<Received>,
)
    requires
        call_ensures(WeChatAdapter::process_incoming_message, (adapter, msg, now), received),
        received is Some,
        msg.context_token@.len() > 0,
    ensures
        !old(adapter).tickets().contains_key(msg.from_user_id@) ==> received->0.typing@ == (
        TypingView::Fetch { context_token: msg.context_token@ }),
        old(adapter).tickets().contains_key(msg.from_user_id@) && now < old(
            adapter,
        ).tickets()[msg.from_user_id@].1 + 86_400_000_000_000 ==> received->0.typing@ == (
        TypingView::Send { ticket: old(adapter).tickets()[msg.from_user_id@].0 }),
        final(adapter).settings() == old(adapter).settings(),
{
}

}
