//! The MCP server: which bot a request comes from, and what it is answered.

use crate::bot::{mcp_path, mcp_url};
use crate::channel::ChatId;
use crate::number::{decimal, to_decimal};
use crate::split::{cat, cut, cut_at, lemma_first_pos, opt_text};
use vstd::prelude::*;
use vstd::string::*;

verus! {

/// The bot that a request comes from.
#[derive(Debug, Clone)]
pub struct McpRequestContext {
    pub channel_name: String,
    pub bot_name: String,
    pub chat_id: ChatId,
}

/// The bot that a request comes from, as text.
pub struct ContextView {
    pub channel_name: Seq<char>,
    pub bot_name: Seq<char>,
    pub chat_id: Seq<char>,
}

impl View for McpRequestContext {
    type V = ContextView;

    open spec fn view(&self) -> ContextView {
        ContextView {
            channel_name: self.channel_name@,
            bot_name: self.bot_name@,
            chat_id: self.chat_id@,
        }
    }
}

/// What `urlencoding::decode` gives for a text; nothing where what it encodes is
/// not UTF-8.
pub uninterp spec fn url_decoded(s: Seq<char>) -> Option<Seq<char>>;

/// `urlencoding::decode`: the text with its percent escapes decoded, which
/// depends on the text alone. A text without a percent sign is its own decoded
/// form.
#[verifier::external_body]
fn url_decode(s: &str) -> (r: Option<String>)
    ensures
        opt_text(r) == url_decoded(s@),
        !s@.contains('%') ==> opt_text(r) == Some(s@),
{
    urlencoding::decode(s).ok().map(|text| text.into_owned())
}

/// The bot that a decoded path names: the channel up to the first slash, the bot
/// up to the second, and the chat from there on, slashes and all.
pub open spec fn context_of(path: Seq<char>) -> Option<ContextView> {
    match cut(path, '/') {
        (channel_name, Some(rest)) => match cut(rest, '/') {
            (bot_name, Some(chat_id)) => Some(ContextView { channel_name, bot_name, chat_id }),
            (_, None) => None,
        },
        (_, None) => None,
    }
}

/// What a request without such a path is answered.
pub open spec fn invalid_path() -> Seq<char> {
    "Invalid URL path. Expected: {channel_name}/{bot_name}/{chat_id}"@
}

/// A path as it is read: decoded, or as it is where it cannot be decoded.
pub open spec fn read_path(path: Seq<char>) -> Seq<char> {
    match url_decoded(path) {
        Some(decoded) => decoded,
        None => path,
    }
}

/// Reads the bot that a decoded path names.
pub fn split_request_path(path: &str) -> (r: Result<McpRequestContext, &'static str>)
    ensures
        match r {
            Ok(context) => context_of(path@) == Some(context@),
            Err(e) => context_of(path@) is None && e@ == invalid_path(),
        },
{
    let (channel_name, rest) = cut_at(path, '/');
    if let Some(rest) = rest {
        let (bot_name, chat_id) = cut_at(rest.as_str(), '/');
        if let Some(chat_id) = chat_id {
            return Ok(McpRequestContext { channel_name, bot_name, chat_id: ChatId(chat_id) });
        }
    }
    Err("Invalid URL path. Expected: {channel_name}/{bot_name}/{chat_id}")
}

/// Reads the bot that a request comes from out of its path.
pub fn parse_request_context(path: &str) -> (r: Result<McpRequestContext, &'static str>)
    ensures
        match r {
            Ok(context) => context_of(read_path(path@)) == Some(context@),
            Err(e) => context_of(read_path(path@)) is None && e@ == invalid_path(),
        },
        !path@.contains('%') ==> match r {
            Ok(context) => context_of(path@) == Some(context@),
            Err(e) => context_of(path@) is None,
        },
{
    match url_decode(path) {
        Some(decoded) => split_request_path(decoded.as_str()),
        None => split_request_path(path),
    }
}

/// What is wrong with a request to mention a bot, if anything: it has to name
/// the bot.
pub fn check_mention(target_bot: &str) -> (r: Result<(), &'static str>)
    ensures
        match r {
            Ok(_) => target_bot@.len() > 0,
            Err(e) => target_bot@.len() == 0 && e@ == "Missing required parameter: target_bot"@,
        },
{
    if target_bot.unicode_len() == 0 {
        Err("Missing required parameter: target_bot")
    } else {
        Ok(())
    }
}

/// What a request to mention a bot is answered.
pub fn mention_answer(error: Option<String>) -> (r: Result<String, String>)
    ensures
        match (r, opt_text(error)) {
            (Ok(text), None) => text@ == "Message sent successfully"@,
            (Err(text), Some(e)) => text@ == "Failed to mention bot: "@ + e,
            _ => false,
        },
{
    match error {
        None => Ok("Message sent successfully".to_string()),
        Some(e) => Err(cat("Failed to mention bot: ", e.as_str())),
    }
}

/// Where the server listens: on a port of this machine only.
pub fn bind_address(port: u16) -> (r: String)
    ensures
        r@ == "127.0.0.1:"@ + decimal(port as nat),
{
    let number = to_decimal(port as u64);
    cat("127.0.0.1:", number.as_str())
}

// ---------------------------------------------------------------------------
// Laws
// ---------------------------------------------------------------------------

/// A bot's requests come back as its own: the path of the address that its agent
/// is given, once it is decoded, names the bot again, as long as neither the
/// channel nor the bot has a slash in its name. The address is not encoded when
/// it is made, so that the path is its own decoded form only where none of the
/// three names has a percent sign; a chat that has one may come back as another.
pub proof fn requests_name_their_bot(channel: Seq<char>, bot: Seq<char>, chat: Seq<char>)
    requires
        !channel.contains('/'),
        !bot.contains('/'),
    ensures
        context_of(mcp_path(channel, bot, chat)) == Some(
            ContextView { channel_name: channel, bot_name: bot, chat_id: chat },
        ),
{
    reveal_strlit("/");
    let path = mcp_path(channel, bot, chat);
    let rest = bot + "/"@ + chat;
    assert(path == channel + "/"@ + rest);
    lemma_cut(channel, rest);
    lemma_cut(bot, chat);
}

/// What stands before a slash is cut off at it.
proof fn lemma_cut(head: Seq<char>, tail: Seq<char>)
    requires
        !head.contains('/'),
    ensures
        cut(head + "/"@ + tail, '/') == (head, Some(tail)),
{
    reveal_strlit("/");
    let s = head + "/"@ + tail;
    assert forall|j: int| 0 <= j < head.len() implies #[trigger] s[j] != '/' by {
        assert(head.contains(head[j]));
        assert(s[j] == head[j]);
    }
    assert(s[head.len() as int] == '/');
    lemma_first_pos(s, '/', head.len() as int);
    assert(s.take(head.len() as int) == head);
    assert(s.skip(head.len() as int + 1) == tail);
}

/// The address that an agent is given is the server's, followed by the path of
/// its bot.
pub proof fn addresses_hold_the_path(port: u16, channel: Seq<char>, bot: Seq<char>, chat: Seq<char>)
    ensures
        ({
            let head = "http://localhost:"@ + decimal(port as nat) + "/mcp/"@;
            crate::split::after_prefix(mcp_url(port as nat, channel, bot, chat), head) == Some(
                mcp_path(channel, bot, chat),
            )
        }),
{
    let head = "http://localhost:"@ + decimal(port as nat) + "/mcp/"@;
    let url = mcp_url(port as nat, channel, bot, chat);
    assert(url.subrange(0, head.len() as int) == head);
    assert(url.skip(head.len() as int) == mcp_path(channel, bot, chat));
}

/// A path that has not two slashes names no bot.
pub proof fn short_paths_name_no_bot(head: Seq<char>, tail: Seq<char>)
    requires
        !head.contains('/'),
        !tail.contains('/'),
    ensures
        context_of(head) is None,
        context_of(head + "/"@ + tail) is None,
        invalid_path() == "Invalid URL path. Expected: {channel_name}/{bot_name}/{chat_id}"@,
{
    lemma_cut(head, tail);
    assert forall|j: int| 0 <= j < head.len() implies #[trigger] head[j] != '/' by {
        assert(head.contains(head[j]));
    }
    assert forall|j: int| 0 <= j < tail.len() implies #[trigger] tail[j] != '/' by {
        assert(tail.contains(tail[j]));
    }
    lemma_first_pos(head, '/', head.len() as int);
    lemma_first_pos(tail, '/', tail.len() as int);
}

/// A path is read as it decodes, and as it stands only where it cannot be decoded.
pub proof fn paths_are_decoded(path: Seq<char>)
    ensures
        url_decoded(path) matches Some(decoded) ==> read_path(path) == decoded,
        url_decoded(path) is None ==> read_path(path) == path,
{
}

/// A path that names a channel, a bot and a chat is read as these three, the chat
/// being all that follows the second slash.
pub proof fn paths_are_read_in_three(
    path: &str,
    channel: Seq<char>,
    bot: Seq<char>,
    chat: Seq<char>,
    r: Result<McpRequestContext, &'static str>,
)
    requires
        call_ensures(split_request_path, (path,), r),
        !channel.contains('/'),
        !bot.contains('/'),
        path@ == channel + seq!['/'] + (bot + seq!['/'] + chat),
    ensures
        r is Ok,
        r->Ok_0.channel_name@ == channel,
        r->Ok_0.bot_name@ == bot,
        r->Ok_0.chat_id@ == chat,
{
    crate::split::texts_are_cut_at_the_first(channel, '/', bot + seq!['/'] + chat);
    crate::split::texts_are_cut_at_the_first(bot, '/', chat);
}

/// A mention has to name a bot. What comes of it is said, and so is why nothing
/// came of it. The server listens on this machine only.
pub proof fn mentions_are_answered(
    bot: &str,
    checked: Result<(), &'static str>,
    error: Option<String>,
    answer: Result<String, String>,
    port: u16,
    address: String,
)
    ensures
        call_ensures(check_mention, (bot,), checked) ==> (checked is Ok <==> bot@.len() > 0) && (
        bot@.len() == 0 ==> checked->Err_0@ == "Missing required parameter: target_bot"@),
        call_ensures(mention_answer, (error,), answer) && error is None ==> answer is Ok
            && answer->Ok_0@ == "Message sent successfully"@,
        call_ensures(mention_answer, (error,), answer) && error is Some ==> answer is Err
            && answer->Err_0@ == "Failed to mention bot: "@ + error->0@,
        call_ensures(bind_address, (port,), address) ==> address@ == "127.0.0.1:"@ + decimal(
            port as nat,
        ),
{
}

/// A path without escapes that names a channel, a bot and a chat is read as these
/// three.
pub proof fn plain_paths_are_read(
    path: &str,
    channel: Seq<char>,
    bot: Seq<char>,
    chat: Seq<char>,
    r: Result<McpRequestContext, &'static str>,
)
    requires
        call_ensures(parse_request_context, (path,), r),
        !path@.contains('%'),
        !channel.contains('/'),
        !bot.contains('/'),
        path@ == channel + seq!['/'] + (bot + seq!['/'] + chat),
    ensures
        r is Ok,
        r->Ok_0.channel_name@ == channel,
        r->Ok_0.bot_name@ == bot,
        r->Ok_0.chat_id@ == chat,
{
    crate::split::texts_are_cut_at_the_first(channel, '/', bot + seq!['/'] + chat);
    crate::split::texts_are_cut_at_the_first(bot, '/', chat);
}

}
