//! What passes between the messaging platforms and the rest of the bridge.

pub mod buffers;
pub mod discord;
pub mod lark;
pub mod qq;
pub mod telegram;
pub mod token;
pub mod wechat;

use crate::message::{IngressContent, IngressMessage};
use crate::split::{
    cut, cut_at, joined, lemma_first_pos, opt_text, pieces, pieces_make_up_the_text, same,
    split_pieces, texts,
};
use crate::table::Key;
use crate::text::{ascii_lower, byte_len, lemma_trim_unchanged, lowercase, to_lowercase, trim};
use crate::text::{trimmed, white};
use vstd::prelude::*;
use vstd::string::*;
use vstd::utf8::{encode_utf8, is_ascii_chars};

verus! {

/// Identifies a chat on its platform. What the text looks like is the
/// platform's own affair.
#[derive(Debug, Clone, PartialEq, Eq, Hash)]
pub struct ChatId(pub String);

impl View for ChatId {
    type V = Seq<char>;

    open spec fn view(&self) -> Seq<char> {
        self.0@
    }
}

impl Key for ChatId {
    fn same_key(&self, other: &Self) -> (r: bool) {
        same(self.0.as_str(), other.0.as_str())
    }

    fn copy_key(&self) -> (r: Self) {
        ChatId(self.0.clone())
    }
}

/// A message from a user.
#[derive(Debug, Clone)]
pub struct IncomingMessage {
    pub content: IncomingContent,
}

/// What a user sent.
#[derive(Debug, Clone)]
pub enum IncomingContent {
    /// Plain text.
    Text(String),
    /// A slash command, such as `/new` or `/model name`.
    Command { name: String, args: Option<String> },
}

/// What a user sent, as text.
pub enum ContentView {
    Text(Seq<char>),
    Command { name: Seq<char>, args: Option<Seq<char>> },
}

impl View for IncomingContent {
    type V = ContentView;

    open spec fn view(&self) -> ContentView {
        match *self {
            IncomingContent::Text(text) => ContentView::Text(text@),
            IncomingContent::Command { name, args } => ContentView::Command {
                name: name@,
                args: opt_text(args),
            },
        }
    }
}

impl View for IncomingMessage {
    type V = ContentView;

    open spec fn view(&self) -> ContentView {
        self.content@
    }
}

/// A message to a user.
#[derive(Debug, Clone)]
pub struct OutgoingMessage {
    pub content: OutgoingContent,
}

/// What is sent to a user.
#[derive(Debug, Clone)]
pub enum OutgoingContent {
    /// A complete text, such as the answer to a command.
    Text(String),
    /// A piece of a text that is still being written.
    StreamChunk(String),
    /// The end of such a text.
    StreamEnd,
    /// Word of an error.
    Error(String),
    /// A message that addresses another bot.
    Mention { target_bot: String, target_channel_name: Option<String>, message: String },
}

/// What is sent to a user, as text.
pub enum ReplyView {
    Text(Seq<char>),
    StreamChunk(Seq<char>),
    StreamEnd,
    Error(Seq<char>),
    Mention { target_bot: Seq<char>, target_channel_name: Option<Seq<char>>, message: Seq<char> },
}

impl View for OutgoingContent {
    type V = ReplyView;

    open spec fn view(&self) -> ReplyView {
        match *self {
            OutgoingContent::Text(text) => ReplyView::Text(text@),
            OutgoingContent::StreamChunk(text) => ReplyView::StreamChunk(text@),
            OutgoingContent::StreamEnd => ReplyView::StreamEnd,
            OutgoingContent::Error(text) => ReplyView::Error(text@),
            OutgoingContent::Mention { target_bot, target_channel_name, message } =>
                ReplyView::Mention {
                target_bot: target_bot@,
                target_channel_name: opt_text(target_channel_name),
                message: message@,
            },
        }
    }
}

impl View for OutgoingMessage {
    type V = ReplyView;

    open spec fn view(&self) -> ReplyView {
        self.content@
    }
}

impl IncomingMessage {
    /// A text message.
    pub fn text(text: String) -> (r: Self)
        ensures
            r@ == ContentView::Text(text@),
    {
        IncomingMessage { content: IncomingContent::Text(text) }
    }

    /// A command.
    pub fn command(name: String, args: Option<String>) -> (r: Self)
        ensures
            r@ == (ContentView::Command { name: name@, args: opt_text(args) }),
    {
        IncomingMessage { content: IncomingContent::Command { name, args } }
    }
}

impl OutgoingMessage {
    /// A complete text.
    pub fn text(text: String) -> (r: Self)
        ensures
            r@ == ReplyView::Text(text@),
    {
        OutgoingMessage { content: OutgoingContent::Text(text) }
    }

    /// Word of an error.
    pub fn error(text: String) -> (r: Self)
        ensures
            r@ == ReplyView::Error(text@),
    {
        OutgoingMessage { content: OutgoingContent::Error(text) }
    }
}

// ---------------------------------------------------------------------------
// Commands
// ---------------------------------------------------------------------------

/// The command that the text behind a slash gives: its name up to the first
/// blank, in lower case, and what follows the blank.
pub open spec fn command_in(rest: Seq<char>) -> ContentView {
    ContentView::Command { name: lowercase(cut(rest, ' ').0), args: cut(rest, ' ').1 }
}

/// What a user's text says: a command where it begins with a slash, white space
/// aside, and plain text otherwise.
pub open spec fn incoming_of(text: Seq<char>) -> ContentView {
    let t = trim(text);
    if t.len() > 0 && t[0] == '/' {
        command_in(t.skip(1))
    } else {
        ContentView::Text(t)
    }
}

/// What stands behind the slash of a user's text, where it is a command.
pub open spec fn command_text(text: Seq<char>) -> Option<Seq<char>> {
    let t = trim(text);
    if t.len() > 0 && t[0] == '/' {
        Some(t.skip(1))
    } else {
        None
    }
}

/// The lower-case form of a command's name, where the name is ASCII.
pub open spec fn ascii_name(rest: Seq<char>) -> Seq<char> {
    cut(rest, ' ').0.map_values(|c: char| ascii_lower(c))
}

/// Whether the name of a command has its letters lowered one by one, as it has
/// where the name is ASCII. `command` is what stands behind the slash, if
/// anything does.
pub open spec fn is_lowered(content: ContentView, command: Option<Seq<char>>) -> bool {
    match command {
        Some(rest) => is_ascii_chars(cut(rest, ' ').0) ==> content == (ContentView::Command {
            name: ascii_name(rest),
            args: cut(rest, ' ').1,
        }),
        None => true,
    }
}

/// Reads the command behind a slash.
pub fn parse_command(rest: &str) -> (r: IncomingContent)
    ensures
        r@ == command_in(rest@),
        is_lowered(r@, Some(rest@)),
{
    let (head, args) = cut_at(rest, ' ');
    let name = to_lowercase(head.as_str());
    IncomingContent::Command { name, args }
}

/// Reads a user's text as a command or as plain text.
pub fn parse_incoming(text: &str) -> (r: IncomingMessage)
    ensures
        r@ == incoming_of(text@),
        is_lowered(r@, command_text(text@)),
{
    let t = trimmed(text);
    let n: usize = t.unicode_len();
    if n > 0 && t.get_char(0) == '/' {
        IncomingMessage { content: parse_command(t.substring_char(1, n)) }
    } else {
        IncomingMessage::text(t.to_string())
    }
}

// ---------------------------------------------------------------------------
// Platform adapters
// ---------------------------------------------------------------------------

/// A message as a platform delivered it.
#[derive(Debug, Clone)]
pub struct RawIncoming {
    pub chat_id: ChatId,
    pub text: String,
    pub is_group: bool,
    pub is_mentioned: bool,
}

/// Stands for a message that was sent and can be edited.
#[derive(Debug, Clone)]
pub struct MessageHandle(pub String);

/// Whether a message is passed on: where a channel wants to be mentioned, group
/// messages that do not mention the bot are dropped.
pub open spec fn dispatched(mention_only: bool, is_group: bool, is_mentioned: bool) -> bool {
    !(mention_only && is_group && !is_mentioned)
}

/// Whether a message is passed on.
pub fn should_dispatch_message(mention_only: bool, is_group: bool, is_mentioned: bool) -> (r: bool)
    ensures
        r == dispatched(mention_only, is_group, is_mentioned),
{
    !mention_only || !is_group || is_mentioned
}

/// Takes a message that a platform delivered: what it says to the session of its
/// chat, if it is to be passed on.
pub fn raw_to_ingress(channel_name: &str, mention_only: bool, raw: RawIncoming) -> (r: Option<
    IngressMessage,
>)
    ensures
        match r {
            Some(m) => {
                &&& dispatched(mention_only, raw.is_group, raw.is_mentioned)
                &&& m.channel_name@ == channel_name@
                &&& m.chat_id == raw.chat_id
                &&& m.content@ == incoming_of(raw.text@)
                &&& is_lowered(m.content@, command_text(raw.text@))
            },
            None => !dispatched(mention_only, raw.is_group, raw.is_mentioned),
        },
{
    if !should_dispatch_message(mention_only, raw.is_group, raw.is_mentioned) {
        return None;
    }
    let incoming = parse_incoming(raw.text.as_str());
    Some(
        IngressMessage {
            channel_name: channel_name.to_string(),
            chat_id: raw.chat_id,
            content: IngressContent::from(incoming),
        },
    )
}

/// A mention as plain text: the bot's name behind an at sign, and the message.
pub open spec fn plain_mention(target_bot: Seq<char>, message: Seq<char>) -> Seq<char> {
    "@"@ + target_bot + " "@ + message
}

/// An error as the user reads it.
pub open spec fn error_text(error: Seq<char>) -> Seq<char> {
    "Error: "@ + error
}

// ---------------------------------------------------------------------------
// Messages of bounded length
// ---------------------------------------------------------------------------

/// How many bytes a text has.
pub open spec fn bytes_of(s: Seq<char>) -> nat {
    encode_utf8(s).len()
}

/// The messages that a text is sent in: one, where it has no more bytes than the
/// limit, and else pieces of so many characters.
pub open spec fn text_parts(text: Seq<char>, max: nat) -> Seq<Seq<char>> {
    if bytes_of(text) > max {
        pieces(text, max)
    } else {
        seq![text]
    }
}

/// Splits a text into the messages that it is sent in.
pub fn split_text(text: &str, max: usize) -> (r: Vec<String>)
    requires
        max > 0,
    ensures
        texts(r@) == text_parts(text@, max as nat),
{
    if byte_len(text) > max {
        split_pieces(text, max)
    } else {
        let mut r: Vec<String> = Vec::new();
        r.push(text.to_string());
        assert(texts(r@) =~= seq![text@]);
        r
    }
}

// ---------------------------------------------------------------------------
// Laws
// ---------------------------------------------------------------------------

/// The parts of a text hold the whole text in its order, and none has more
/// characters than the limit.
pub proof fn parts_hold_the_whole_text(text: Seq<char>, max: nat)
    requires
        max > 0,
    ensures
        joined(text_parts(text, max), Seq::empty()) == text,
        bytes_of(text) > max ==> forall|i: int|
            0 <= i < text_parts(text, max).len() ==> 0 < (#[trigger] text_parts(text, max)[i]).len()
                <= max,
{
    pieces_make_up_the_text(text, max);
}

/// A command is read as it is written: a slash, a name, a blank and what belongs
/// to it give the name in lower case and just what belongs to it.
pub proof fn commands_are_read_as_written(name: Seq<char>, args: Seq<char>)
    requires
        !name.contains(' '),
        args.len() > 0,
        !white(args.last()),
    ensures
        incoming_of("/"@ + name + " "@ + args) == (ContentView::Command {
            name: lowercase(name),
            args: Some(args),
        }),
{
    reveal_strlit("/");
    reveal_strlit(" ");
    let text = "/"@ + name + " "@ + args;
    assert(text[0] == '/');
    assert(text.last() == args.last());
    lemma_trim_unchanged(text);
    let rest = text.skip(1);
    assert(rest == name + " "@ + args);
    assert forall|j: int| 0 <= j < name.len() implies #[trigger] rest[j] != ' ' by {
        assert(name.contains(name[j]));
    }
    assert(rest[name.len() as int] == ' ');
    lemma_first_pos(rest, ' ', name.len() as int);
    assert(rest.take(name.len() as int) == name);
    assert(rest.skip(name.len() as int + 1) == args);
}

/// A command without anything that belongs to it has no arguments.
pub proof fn bare_commands_have_no_arguments(name: Seq<char>)
    requires
        !name.contains(' '),
        name.len() > 0 ==> !white(name.last()),
    ensures
        incoming_of("/"@ + name) == (ContentView::Command { name: lowercase(name), args: None }),
{
    reveal_strlit("/");
    let text = "/"@ + name;
    assert(text[0] == '/');
    if name.len() > 0 {
        assert(text.last() == name.last());
    }
    lemma_trim_unchanged(text);
    let rest = text.skip(1);
    assert(rest == name);
    assert forall|j: int| 0 <= j < name.len() implies #[trigger] rest[j] != ' ' by {
        assert(name.contains(name[j]));
    }
    lemma_first_pos(rest, ' ', name.len() as int);
    assert(rest.take(name.len() as int) == name);
}

/// A text that does not begin with a slash is passed on as it is, but for the
/// white space around it.
pub proof fn plain_texts_are_passed_on(text: Seq<char>)
    requires
        trim(text).len() > 0 ==> trim(text)[0] != '/',
    ensures
        incoming_of(text) == ContentView::Text(trim(text)),
{
}

/// A message is dropped only where the channel wants to be mentioned, the message
/// comes from a group, and it does not mention the bot.
pub proof fn only_unmentioned_group_messages_are_dropped(is_group: bool, is_mentioned: bool)
    ensures
        dispatched(false, is_group, is_mentioned),
        dispatched(true, false, is_mentioned),
        dispatched(true, is_group, true),
        !dispatched(true, true, false),
{
}

/// A mention is the bot's name behind an at sign and the message behind a blank;
/// an error is read as one.
pub proof fn mentions_and_errors_are_read_as_such(bot: Seq<char>, message: Seq<char>)
    ensures
        plain_mention(bot, message) == seq!['@'] + bot + seq![' '] + message,
        error_text(message) == "Error: "@ + message,
{
    reveal_strlit("@");
    reveal_strlit(" ");
    assert("@"@ =~= seq!['@']);
    assert(" "@ =~= seq![' ']);
}

/// A text that has no more bytes than the limit is sent as it is, in one message;
/// one that has more is sent in pieces that are all as long as they may be, but for
/// the last.
pub proof fn short_texts_are_sent_at_once(text: Seq<char>, max: nat, i: int)
    requires
        max > 0,
    ensures
        encode_utf8(text).len() <= max ==> text_parts(text, max) == seq![text],
        encode_utf8(text).len() > max && 0 <= i < text_parts(text, max).len() - 1 ==> text_parts(
            text,
            max,
        )[i].len() == max,
{
    if encode_utf8(text).len() > max && 0 <= i < text_parts(text, max).len() - 1 {
        crate::split::pieces_are_full(text, max, i);
    }
}

/// What stands behind the slash of a command is what its name and its arguments are
/// read from; white space around the text makes no difference.
pub proof fn commands_begin_with_a_slash(text: Seq<char>)
    ensures
        trim(text).len() > 0 && trim(text)[0] == '/' ==> command_text(text) == Some(
            trim(text).skip(1),
        ) && incoming_of(text) is Command,
        trim(text).len() == 0 || trim(text)[0] != '/' ==> command_text(text) is None && incoming_of(
            text,
        ) == ContentView::Text(trim(text)),
{
}

/// What users send and are sent is taken by its kind and its words, and nothing of
/// it is left out.
pub proof fn messages_are_taken_by_their_words(
    text: String,
    name: String,
    extra: Option<String>,
)
    ensures
        ChatId(text)@ == text@,
        IncomingContent::Text(text)@ == ContentView::Text(text@),
        (IncomingContent::Command { name, args: extra })@ == (ContentView::Command {
            name: name@,
            args: opt_text(extra),
        }),
        (IncomingMessage { content: IncomingContent::Text(text) })@ == ContentView::Text(text@),
        OutgoingContent::Text(text)@ == ReplyView::Text(text@),
        OutgoingContent::StreamChunk(text)@ == ReplyView::StreamChunk(text@),
        OutgoingContent::StreamEnd@ == ReplyView::StreamEnd,
        OutgoingContent::Error(text)@ == ReplyView::Error(text@),
        (OutgoingContent::Mention {
            target_bot: name,
            target_channel_name: extra,
            message: text,
        })@ == (ReplyView::Mention {
            target_bot: name@,
            target_channel_name: opt_text(extra),
            message: text@,
        }),
        (OutgoingMessage { content: OutgoingContent::Text(text) })@ == ReplyView::Text(text@),
        opt_text(Some(text)) == Some(text@),
        opt_text(None) is None,
{
}

/// A command whose name is ASCII is taken by that name in small letters: each
/// capital gives its own small letter, and everything else stays as it is.
pub proof fn command_names_are_taken_in_small_letters(
    content: ContentView,
    name: Seq<char>,
    args: Seq<char>,
    i: int,
)
    requires
        is_lowered(content, Some(name + seq![' '] + args)),
        !name.contains(' '),
        is_ascii_chars(name),
        0 <= i < name.len(),
    ensures
        content matches ContentView::Command { name: taken, args: rest } && {
            &&& rest == Some(args)
            &&& taken.len() == name.len()
            &&& 'A' <= name[i] <= 'Z' ==> taken[i] as u32 == name[i] as u32 + 32
            &&& !('A' <= name[i] <= 'Z') ==> taken[i] == name[i]
        },
{
    crate::split::texts_are_cut_at_the_first(name, ' ', args);
    crate::text::capitals_are_lowered(name[i]);
}

/// A message of a platform is passed on from its channel and chat with what it
/// says, unless it comes from a group on a channel that wants to be mentioned and
/// does not mention the bot.
pub proof fn raw_messages_are_passed_on(
    channel: &str,
    mention_only: bool,
    raw: RawIncoming,
    r: Option<IngressMessage>,
)
    requires
        call_ensures(raw_to_ingress, (channel, mention_only, raw), r),
    ensures
        r is None <==> mention_only && raw.is_group && !raw.is_mentioned,
        r is Some ==> {
            &&& r->0.channel_name@ == channel@
            &&& r->0.chat_id == raw.chat_id
            &&& r->0.content@ == incoming_of(raw.text@)
            &&& is_lowered(r->0.content@, command_text(raw.text@))
        },
{
}

/// Messages say what they are made with.
pub proof fn messages_say_what_they_are_made_with(
    text: String,
    args: Option<String>,
    incoming: IncomingMessage,
    outgoing: OutgoingMessage,
)
    ensures
        call_ensures(IncomingMessage::text, (text,), incoming) ==> incoming@ == ContentView::Text(
            text@,
        ),
        call_ensures(IncomingMessage::command, (text, args), incoming) ==> incoming@ == (
        ContentView::Command { name: text@, args: opt_text(args) }),
        call_ensures(OutgoingMessage::text, (text,), outgoing) ==> outgoing@ == ReplyView::Text(
            text@,
        ),
        call_ensures(OutgoingMessage::error, (text,), outgoing) ==> outgoing@ == ReplyView::Error(
            text@,
        ),
{
}

/// What a user types behind a slash is read as a command, and everything else as
/// text, by the words that were typed.
pub proof fn typed_texts_are_read(text: &str, r: IncomingMessage)
    requires
        call_ensures(parse_incoming, (text,), r),
    ensures
        trim(text@).len() > 0 && trim(text@)[0] == '/' ==> r@ is Command && is_lowered(
            r@,
            Some(trim(text@).skip(1)),
        ),
        trim(text@).len() == 0 || trim(text@)[0] != '/' ==> r@ == ContentView::Text(trim(text@)),
{
    commands_begin_with_a_slash(text@);
}

}
