//! Discord: which messages count, and how bots are mentioned.

use super::{plain_mention, split_text, text_parts, ChatId, RawIncoming};
use crate::number::{decimal, lemma_decimal, parse_u64, to_decimal, unsigned_value};
use crate::shared_map::{get_number, insert_number, new_numbers, numbers_in};
use crate::split::{
    cat3, cat4, lemma_without_behind, lists, opt_text, patterns_are_taken_out, remove_all, texts,
    without,
};
use crate::text::{digit, trim, trimmed};
use dashmap::DashMap;
use vstd::prelude::*;
use vstd::string::*;

verus! {

/// How long a message may be.
pub const MAX_MESSAGE_LENGTH: usize = 2000;

/// The user number of each channel's bot.
pub struct BotRegistry {
    ids: DashMap<String, u64>,
}

impl View for BotRegistry {
    type V = Map<Seq<char>, u64>;

    closed spec fn view(&self) -> Map<Seq<char>, u64> {
        numbers_in(self.ids)
    }
}

impl BotRegistry {
    /// No bots.
    pub fn new() -> (r: Self)
        ensures
            r@ == Map::<Seq<char>, u64>::empty(),
    {
        let r = BotRegistry { ids: new_numbers() };
        assert(r@ =~= Map::<Seq<char>, u64>::empty());
        r
    }

    /// Enters a channel's bot.
    pub fn register(&mut self, channel_name: &str, bot_user_id: u64)
        ensures
            final(self)@ == old(self)@.insert(channel_name@, bot_user_id),
    {
        insert_number(&mut self.ids, channel_name.to_string(), bot_user_id);
    }
}

/// A channel on Discord.
#[derive(Debug, Clone)]
pub struct DiscordAdapter {
    pub bot_token: String,
    /// The guilds that the bot listens to; all of them where none are named.
    pub guild_ids: Option<Vec<String>>,
    pub channel_name: String,
}

/// A message, as the platform delivers it.
#[derive(Debug, Clone)]
pub struct DiscordMessage {
    pub author_id: u64,
    pub channel_id: u64,
    pub guild_id: Option<u64>,
    /// The users that the message mentions.
    pub mentions: Vec<u64>,
    pub content: String,
}

/// How a user is mentioned.
pub open spec fn mention(id: u64) -> Seq<char> {
    "<@"@ + decimal(id as nat) + ">"@
}

/// How a user is mentioned by nickname.
pub open spec fn nick_mention(id: u64) -> Seq<char> {
    "<@!"@ + decimal(id as nat) + ">"@
}

/// The text of a message, without the mentions of the bot where it is mentioned.
pub open spec fn message_text(content: Seq<char>, bot: u64, mentioned: bool) -> Seq<char> {
    if mentioned {
        trim(without(without(content, mention(bot)), nick_mention(bot)))
    } else {
        content
    }
}

/// Whether a message comes from a guild that the bot does not listen to.
pub open spec fn is_filtered(guilds: Option<Vec<String>>, guild: Option<u64>) -> bool {
    match (guilds, guild) {
        (Some(allowed), Some(id)) => !texts(allowed@).contains(decimal(id as nat)),
        _ => false,
    }
}

/// Whether a message counts: it is not the bot's own, its guild is one that the
/// bot listens to, and something is left of it without the mentions.
pub open spec fn counts(guilds: Option<Vec<String>>, bot: u64, msg: DiscordMessage) -> bool {
    &&& msg.author_id != bot
    &&& !is_filtered(guilds, msg.guild_id)
    &&& message_text(msg.content@, bot, msg.mentions@.contains(bot)).len() > 0
}

/// How a bot is mentioned: as the user that it is on the target channel, where
/// that is known, and by name otherwise.
pub open spec fn mention_text(
    registry: Map<Seq<char>, u64>,
    target_bot: Seq<char>,
    target_channel: Option<Seq<char>>,
    message: Seq<char>,
) -> Seq<char> {
    match target_channel {
        Some(channel) => if registry.contains_key(channel) {
            "<@"@ + decimal(registry[channel] as nat) + "> "@ + message
        } else {
            plain_mention(target_bot, message)
        },
        None => plain_mention(target_bot, message),
    }
}

fn holds(v: &Vec<u64>, id: u64) -> (r: bool)
    ensures
        r == v@.contains(id),
{
    let mut i: usize = 0;
    while i < v.len()
        invariant
            i <= v@.len(),
            forall|j: int| 0 <= j < i ==> #[trigger] v@[j] != id,
        decreases v@.len() - i,
    {
        if v[i] == id {
            return true;
        }
        i += 1;
    }
    false
}

impl DiscordAdapter {
    /// A channel with its bot's token.
    pub fn new(bot_token: String, guild_ids: Option<Vec<String>>, channel_name: String) -> (r: Self)
        ensures
            r.bot_token == bot_token,
            r.guild_ids == guild_ids,
            r.channel_name == channel_name,
    {
        DiscordAdapter { bot_token, guild_ids, channel_name }
    }

    /// The user number of a channel's bot.
    pub fn get_bot_user_id(registry: &BotRegistry, channel_name: &str) -> (r: Option<u64>)
        ensures
            match r {
                Some(id) => registry@.contains_key(channel_name@) && id == registry@[channel_name@],
                None => !registry@.contains_key(channel_name@),
            },
    {
        get_number(&registry.ids, channel_name)
    }

    /// The platform's name.
    pub fn platform(&self) -> (r: &'static str)
        ensures
            r@ == "discord"@,
    {
        "discord"
    }

    /// How long a message may be.
    pub fn max_message_length(&self) -> (r: usize)
        ensures
            r == MAX_MESSAGE_LENGTH,
    {
        MAX_MESSAGE_LENGTH
    }

    /// Whether messages can be edited.
    pub fn supports_edit(&self) -> (r: bool)
        ensures
            r,
    {
        true
    }

    /// How a bot is mentioned.
    pub fn format_mention(
        &self,
        registry: &BotRegistry,
        target_bot: &str,
        target_channel_name: &Option<String>,
        message: &str,
    ) -> (r: String)
        ensures
            r@ == mention_text(registry@, target_bot@, opt_text(*target_channel_name), message@),
    {
        match target_channel_name {
            Some(channel) => match get_number(&registry.ids, channel.as_str()) {
                Some(id) => {
                    let number = to_decimal(id);
                    cat4("<@", number.as_str(), "> ", message)
                },
                None => cat4("@", target_bot, " ", message),
            },
            None => cat4("@", target_bot, " ", message),
        }
    }

    /// Takes a message: what it says to the bot, if it counts.
    pub fn message(&self, bot_user_id: u64, msg: &DiscordMessage) -> (r: Option<RawIncoming>)
        ensures
            match r {
                Some(raw) => {
                    let mentioned = msg.mentions@.contains(bot_user_id);
                    &&& counts(self.guild_ids, bot_user_id, *msg)
                    &&& raw.chat_id@ == decimal(msg.channel_id as nat)
                    &&& raw.text@ == message_text(msg.content@, bot_user_id, mentioned)
                    &&& raw.is_group == (msg.guild_id is Some)
                    &&& raw.is_mentioned == mentioned
                },
                None => !counts(self.guild_ids, bot_user_id, *msg),
            },
    {
        if msg.author_id == bot_user_id {
            return None;
        }
        if let Some(allowed) = &self.guild_ids {
            if let Some(guild_id) = msg.guild_id {
                let name = to_decimal(guild_id);
                if !lists(allowed, name.as_str()) {
                    return None;
                }
            }
        }
        let is_mentioned = holds(&msg.mentions, bot_user_id);
        let text = if is_mentioned {
            let number = to_decimal(bot_user_id);
            let plain = cat3("<@", number.as_str(), ">");
            let nick = cat3("<@!", number.as_str(), ">");
            proof {
                reveal_strlit("<@");
                reveal_strlit("<@!");
            }
            let once = remove_all(msg.content.as_str(), plain.as_str());
            let twice = remove_all(once.as_str(), nick.as_str());
            trimmed(twice.as_str()).to_string()
        } else {
            msg.content.clone()
        };
        if text.as_str().unicode_len() == 0 {
            return None;
        }
        Some(
            RawIncoming {
                chat_id: ChatId(to_decimal(msg.channel_id)),
                text,
                is_group: msg.guild_id.is_some(),
                is_mentioned,
            },
        )
    }

    /// Splits a text into the messages that it is sent in.
    pub fn send_text(&self, text: &str) -> (r: Vec<String>)
        ensures
            texts(r@) == text_parts(text@, MAX_MESSAGE_LENGTH as nat),
    {
        split_text(text, MAX_MESSAGE_LENGTH)
    }
}

/// The number of a chat's channel; an error where its name is no number.
pub fn parse_channel_id(chat_id: &ChatId) -> (r: Result<u64, ()>)
    ensures
        match r {
            Ok(id) => unsigned_value(chat_id@) == Some(id as nat),
            Err(_) => match unsigned_value(chat_id@) {
                Some(n) => n > u64::MAX,
                None => true,
            },
        },
{
    match parse_u64(chat_id.0.as_str()) {
        Some(id) => Ok(id),
        None => Err(()),
    }
}

/// Messages are answered in the channel that they came from: the chat of a
/// message reads back as the number of its channel.
pub proof fn answers_go_where_messages_came_from(channel_id: u64)
    ensures
        unsigned_value(decimal(channel_id as nat)) == Some(channel_id as nat),
{
    crate::number::decimal_reads_back(channel_id as nat);
}

/// A bot never takes its own messages.
pub proof fn bots_do_not_hear_themselves(guilds: Option<Vec<String>>, msg: DiscordMessage)
    ensures
        !counts(guilds, msg.author_id, msg),
{
}

/// Mentions of a bot are taken out of a message to it, written either way, with
/// the white space around what is left; a message that does not mention it is
/// taken as it is.
pub proof fn mentions_of_the_bot_are_taken_out(before: Seq<char>, bot: u64, after: Seq<char>)
    requires
        !before.contains('<'),
        !after.contains('<'),
    ensures
        message_text(before + ("<@"@ + decimal(bot as nat) + ">"@ + after), bot, true) == trim(
            before + after,
        ),
        message_text(before + ("<@!"@ + decimal(bot as nat) + ">"@ + after), bot, true) == trim(
            before + after,
        ),
        message_text(before, bot, true) == trim(before),
        message_text(before, bot, false) == before,
{
    reveal_strlit("<@");
    reveal_strlit("<@!");
    reveal_strlit(">");
    let number = decimal(bot as nat);
    let plain = mention(bot);
    let nick = nick_mention(bot);
    let rest = before + after;
    lemma_contains_either(before, after, '<');
    patterns_are_taken_out(before, plain, after);
    patterns_are_taken_out(after, plain, after);
    patterns_are_taken_out(rest, nick, after);
    patterns_are_taken_out(before, nick, after);
    patterns_are_taken_out(after, nick, after);
    assert("<@"@ + number + ">"@ + after == plain + after);
    assert("<@!"@ + number + ">"@ + after == nick + after);
    let tail = nick + after;
    let inner = tail.skip(1);
    lemma_decimal(bot as nat);
    assert(digit(number[0]));
    assert(plain[2] == number[0]);
    assert(tail[2] == '!');
    if plain.is_prefix_of(tail) {
        assert(tail.subrange(0, plain.len() as int)[2] == tail[2]);
    }
    assert(!nick.skip(1).contains('<')) by {
        assert forall|i: int| 0 <= i < nick.len() - 1 implies #[trigger] nick.skip(1)[i] != '<' by {
            let k = i + 1;
            if 3 <= k < 3 + number.len() {
                assert(nick[k] == number[k - 3]);
                assert(digit(number[k - 3]));
            }
        }
    }
    lemma_contains_either(nick.skip(1), after, '<');
    assert(inner == nick.skip(1) + after);
    patterns_are_taken_out(inner, plain, after);
    assert(seq![tail[0]] + inner == tail);
    lemma_without_behind(before, tail, plain);
}

proof fn lemma_contains_either(a: Seq<char>, b: Seq<char>, c: char)
    requires
        !a.contains(c),
        !b.contains(c),
    ensures
        !(a + b).contains(c),
{
    let s = a + b;
    if s.contains(c) {
        let i = s.index_of(c);
        if i < a.len() {
            assert(a[i] == c);
        } else {
            assert(b[i - a.len()] == c);
        }
    }
}

/// A message counts that another sent, in a guild that the bot listens to or in
/// none, and that says something. Where no guilds are named the bot listens to all
/// of them.
pub proof fn messages_of_other_guilds_do_not_count(
    guilds: Option<Vec<String>>,
    bot: u64,
    msg: DiscordMessage,
)
    ensures
        is_filtered(guilds, msg.guild_id) <==> guilds is Some && msg.guild_id is Some && forall|
            i: int,
        |
            0 <= i < guilds->0@.len() ==> (#[trigger] guilds->0@[i])@ != decimal(
                msg.guild_id->0 as nat,
            ),
        counts(guilds, bot, msg) <==> msg.author_id != bot && !is_filtered(guilds, msg.guild_id)
            && message_text(msg.content@, bot, msg.mentions@.contains(bot)).len() > 0,
{
    if let (Some(allowed), Some(id)) = (guilds, msg.guild_id) {
        let names = texts(allowed@);
        let name = decimal(id as nat);
        if names.contains(name) {
            let i = names.index_of(name);
            assert(allowed@[i]@ == name);
        }
        assert forall|i: int| 0 <= i < allowed@.len() && allowed@[i]@ == name implies names.contains(
            name,
        ) by {
            assert(names[i] == name);
        }
    }
}

/// Bots are mentioned as the users that they are, where the target channel's is
/// known, and by name otherwise. A message has two thousand characters at most.
pub proof fn bots_are_mentioned_as_users(
    registry: Map<Seq<char>, u64>,
    bot: Seq<char>,
    channel: Seq<char>,
    message: Seq<char>,
)
    ensures
        registry.contains_key(channel) ==> mention_text(registry, bot, Some(channel), message)
            == "<@"@ + decimal(registry[channel] as nat) + "> "@ + message,
        !registry.contains_key(channel) ==> mention_text(registry, bot, Some(channel), message)
            == "@"@ + bot + " "@ + message,
        mention_text(registry, bot, None, message) == "@"@ + bot + " "@ + message,
        MAX_MESSAGE_LENGTH == 2000,
{
}

/// A message that counts is passed on from its channel with what it says to the bot,
/// and with whether it came from a guild and mentions the bot. Others are dropped.
pub proof fn messages_that_count_are_passed_on(
    adapter: &DiscordAdapter,
    bot: u64,
    msg: &DiscordMessage,
    r: Option<RawIncoming>,
)
    requires
        call_ensures(DiscordAdapter::message, (adapter, bot, msg), r),
    ensures
        msg.author_id == bot ==> r is None,
        adapter.guild_ids is None && msg.author_id != bot && !msg.mentions@.contains(bot)
            && msg.content@.len() > 0 ==> r is Some && r->0.text@ == msg.content@,
        r is Some ==> r->0.chat_id@ == decimal(msg.channel_id as nat) && r->0.is_group == (
        msg.guild_id is Some) && r->0.is_mentioned == msg.mentions@.contains(bot),
        !msg.mentions@.contains(bot) && msg.content@.len() == 0 ==> r is None,
{
}

/// A bot that was entered is found by its channel; the number of a channel is read
/// from its chat.
pub proof fn entered_bots_are_found(
    registry: &mut BotRegistry,
    channel: &str,
    id: u64,
    after: &BotRegistry,
    other: &str,
    found: Option<u64>,
    chat: &ChatId,
    number: Result<u64, ()>,
    n: u64,
)
    ensures
        call_ensures(BotRegistry::register, (registry, channel, id), ()) && *after == *final(registry) && call_ensures(DiscordAdapter::get_bot_user_id, (after, other), found) ==> {
            &&& other@ == channel@ ==> found == Some(id)
            &&& other@ != channel@ ==> (found is Some <==> old(registry)@.contains_key(other@))
        },
        call_ensures(parse_channel_id, (chat,), number) && chat@ == decimal(n as nat) ==> number
            == Ok::<u64, ()>(n),
        call_ensures(parse_channel_id, (chat,), number) && unsigned_value(chat@) is None
            ==> number is Err,
{
    crate::number::decimal_reads_back(n as nat);
}

/// What the adapter says of its platform.
pub proof fn discord_is_described(adapter: &DiscordAdapter, name: &'static str, n: usize, yes: bool)
    ensures
        call_ensures(DiscordAdapter::platform, (adapter,), name) ==> name@ == "discord"@,
        call_ensures(DiscordAdapter::max_message_length, (adapter,), n) ==> n == 2000,
        call_ensures(DiscordAdapter::supports_edit, (adapter,), yes) ==> yes,
{
}

/// A text that goes into one message is sent in one, and a bot is mentioned as the
/// user that it is on its channel.
pub proof fn texts_and_mentions_are_sent(
    adapter: &DiscordAdapter,
    text: &str,
    parts: Vec<String>,
    registry: &BotRegistry,
    bot: &str,
    channel: &Option<String>,
    message: &str,
    word: String,
)
    ensures
        call_ensures(DiscordAdapter::send_text, (adapter, text), parts) && super::bytes_of(text@)
            <= 2000 ==> texts(parts@) == seq![text@],
        call_ensures(DiscordAdapter::format_mention, (adapter, registry, bot, channel, message), word)
            && *channel is Some && registry@.contains_key((*channel)->0@) ==> word@ == "<@"@
            + decimal(registry@[(*channel)->0@] as nat) + "> "@ + message@,
        call_ensures(DiscordAdapter::format_mention, (adapter, registry, bot, channel, message), word)
            && *channel is None ==> word@ == "@"@ + bot@ + " "@ + message@,
{
    super::short_texts_are_sent_at_once(text@, 2000, 0);
}

}
