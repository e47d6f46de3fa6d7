//! The `/bot` command: which bots a channel offers, and which one is wanted.

use crate::channel::{OutgoingMessage, ReplyView};
use crate::config::{description_of, ChannelConfig, Config};
use crate::split::{cat, cat3, cat5, is_text, joined, lemma_joined_push, lists, opt_text, texts};
use crate::text::{trim, trimmed};
use vstd::prelude::*;
use vstd::string::*;

verus! {

/// What a `/bot` command comes to.
#[derive(Debug, Clone)]
pub enum BotCommand {
    /// Nothing but an answer.
    Say(OutgoingMessage),
    /// The chat is to change over to this bot.
    Switch { target: String },
}

/// What a `/bot` command comes to, as text.
pub enum BotCommandView {
    Say(ReplyView),
    Switch { target: Seq<char> },
}

impl View for BotCommand {
    type V = BotCommandView;

    open spec fn view(&self) -> BotCommandView {
        match *self {
            BotCommand::Say(m) => BotCommandView::Say(m@),
            BotCommand::Switch { target } => BotCommandView::Switch { target: target@ },
        }
    }
}

/// One line for each bot of a channel, with a mark at the one in use and its
/// description.
pub open spec fn bot_lines(config: Config, names: Seq<Seq<char>>, current: Option<Seq<char>>) -> Seq<
    char,
>
    decreases names.len(),
{
    if names.len() == 0 {
        "Available bots:\n"@
    } else {
        bot_lines(config, names.drop_last(), current) + ("- "@ + names.last() + (if current == Some(
            names.last(),
        ) {
            " (current)"@
        } else {
            ""@
        }) + " — "@ + (description_of(config.bots@, names.last()) + "\n"@))
    }
}

/// What a `/bot` command comes to on a channel: a list of its bots where no name
/// is given; a refusal where the channel does not offer the bot; a note where
/// the chat has it already; and otherwise a change of bots.
pub open spec fn bot_command(
    config: Config,
    channel: ChannelConfig,
    current: Option<Seq<char>>,
    args: Option<Seq<char>>,
) -> BotCommandView {
    match args {
        None => BotCommandView::Say(
            ReplyView::Text(trim(bot_lines(config, texts(channel.bots@), current))),
        ),
        Some(name) => {
            let target = trim(name);
            if !texts(channel.bots@).contains(target) {
                BotCommandView::Say(
                    ReplyView::Error(
                        "Bot '"@ + target
                            + "' is not available on this channel. Use /bot to list."@,
                    ),
                )
            } else if current == Some(target) {
                BotCommandView::Say(ReplyView::Text("Already using bot: "@ + target))
            } else {
                BotCommandView::Switch { target }
            }
        },
    }
}

fn list_bots(config: &Config, names: &Vec<String>, current: &Option<String>) -> (r: String)
    ensures
        r@ == bot_lines(*config, texts(names@), opt_text(*current)),
{
    let mut r = "Available bots:\n".to_string();
    let mut i: usize = 0;
    while i < names.len()
        invariant
            i <= names@.len(),
            r@ == bot_lines(*config, texts(names@).take(i as int), opt_text(*current)),
        decreases names@.len() - i,
    {
        proof {
            assert(texts(names@).take(i + 1).drop_last() == texts(names@).take(i as int));
            assert(texts(names@).take(i + 1).last() == names@[i as int]@);
        }
        let marker = if is_text(current, names[i].as_str()) {
            " (current)"
        } else {
            ""
        };
        let about = config.describe(names[i].as_str());
        let tail = cat(about.as_str(), "\n");
        r.append(cat5("- ", names[i].as_str(), marker, " — ", tail.as_str()).as_str());
        i += 1;
    }
    proof {
        assert(texts(names@).take(names@.len() as int) == texts(names@));
    }
    r
}

/// Decides what a `/bot` command comes to.
pub fn decide_bot_command(
    config: &Config,
    channel: &ChannelConfig,
    current: &Option<String>,
    args: &Option<String>,
) -> (r: BotCommand)
    ensures
        r@ == bot_command(*config, *channel, opt_text(*current), opt_text(*args)),
{
    match args {
        None => {
            let list = list_bots(config, &channel.bots, current);
            BotCommand::Say(OutgoingMessage::text(trimmed(list.as_str()).to_string()))
        },
        Some(name) => {
            let target = trimmed(name.as_str());
            if !lists(&channel.bots, target) {
                BotCommand::Say(
                    OutgoingMessage::error(
                        cat3(
                            "Bot '",
                            target,
                            "' is not available on this channel. Use /bot to list.",
                        ),
                    ),
                )
            } else if is_text(current, target) {
                BotCommand::Say(OutgoingMessage::text(cat("Already using bot: ", target)))
            } else {
                BotCommand::Switch { target: target.to_string() }
            }
        },
    }
}

/// What the user reads of a change of bots: that it begins, and how it ended.
pub open spec fn switch_replies(target: Seq<char>, started: bool) -> Seq<ReplyView> {
    seq![
        ReplyView::Text("Switching to bot: "@ + target + "..."@),
        if started {
            ReplyView::Text("Switched to bot: "@ + target)
        } else {
            ReplyView::Error("Failed to start bot: "@ + ("Bot config not found: "@ + target))
        },
    ]
}

/// What the user reads of a change of bots.
pub fn report_switch(target: &str, started: bool) -> (r: Vec<OutgoingMessage>)
    ensures
        crate::acp_client::stream::replies(r@) == switch_replies(target@, started),
{
    let mut r: Vec<OutgoingMessage> = Vec::new();
    r.push(OutgoingMessage::text(cat3("Switching to bot: ", target, "...")));
    if started {
        r.push(OutgoingMessage::text(cat("Switched to bot: ", target)));
    } else {
        let why = cat("Bot config not found: ", target);
        r.push(OutgoingMessage::error(cat("Failed to start bot: ", why.as_str())));
    }
    assert(crate::acp_client::stream::replies(r@) =~= switch_replies(target@, started));
    r
}

/// The list that `/bot` gives has a line for each bot that the channel offers, in
/// the channel's order, with the bot's description; and the bot that the chat has
/// is marked in it, at whatever place it stands, and no other.
pub proof fn lists_mark_the_bot_in_use(
    config: Config,
    channel: ChannelConfig,
    current: Option<Seq<char>>,
)
    ensures
        ({
            let lines = Seq::new(
                channel.bots@.len(),
                |i: int|
                    "- "@ + channel.bots@[i]@ + (if current == Some(channel.bots@[i]@) {
                        " (current)"@
                    } else {
                        ""@
                    }) + " — "@ + (description_of(config.bots@, channel.bots@[i]@) + "\n"@),
            );
            bot_command(config, channel, current, None) == BotCommandView::Say(
                ReplyView::Text(trim("Available bots:\n"@ + joined(lines, Seq::empty()))),
            )
        }),
{
    let names = texts(channel.bots@);
    let lines = Seq::new(
        channel.bots@.len(),
        |i: int|
            "- "@ + channel.bots@[i]@ + (if current == Some(channel.bots@[i]@) {
                " (current)"@
            } else {
                ""@
            }) + " — "@ + (description_of(config.bots@, channel.bots@[i]@) + "\n"@),
    );
    lemma_bot_lines(config, names, current, lines, names.len() as int);
    assert(names.take(names.len() as int) == names);
    assert(lines.take(names.len() as int) == lines);
}

proof fn lemma_bot_lines(
    config: Config,
    names: Seq<Seq<char>>,
    current: Option<Seq<char>>,
    lines: Seq<Seq<char>>,
    n: int,
)
    requires
        0 <= n <= names.len() == lines.len(),
        forall|i: int|
            0 <= i < names.len() ==> #[trigger] lines[i] == "- "@ + names[i] + (if current == Some(
                names[i],
            ) {
                " (current)"@
            } else {
                ""@
            }) + " — "@ + (description_of(config.bots@, names[i]) + "\n"@),
    ensures
        bot_lines(config, names.take(n), current) == "Available bots:\n"@ + joined(
            lines.take(n),
            Seq::empty(),
        ),
    decreases n,
{
    let head = "Available bots:\n"@;
    if n == 0 {
        assert(head + Seq::<char>::empty() == head);
    } else {
        lemma_bot_lines(config, names, current, lines, n - 1);
        assert(names.take(n).drop_last() == names.take(n - 1));
        assert(names.take(n).last() == names[n - 1]);
        assert(lines.take(n) == lines.take(n - 1).push(lines[n - 1]));
        lemma_joined_push(lines.take(n - 1), lines[n - 1]);
        let sum = joined(lines.take(n - 1), Seq::empty());
        assert(head + sum + lines[n - 1] == head + (sum + lines[n - 1]));
    }
}

/// A name leads to a change of bots just where the channel offers the bot and the
/// chat has another or none, white space around the name aside; the user is told
/// otherwise, with the name.
pub proof fn bots_are_switched_by_name(
    config: Config,
    channel: ChannelConfig,
    current: Option<Seq<char>>,
    name: Seq<char>,
)
    ensures
        ({
            let target = trim(name);
            let offered = exists|i: int|
                0 <= i < channel.bots@.len() && (#[trigger] channel.bots@[i])@ == target;
            let answer = bot_command(config, channel, current, Some(name));
            &&& offered && current != Some(target) ==> answer == (BotCommandView::Switch { target })
            &&& offered && current == Some(target) ==> answer == BotCommandView::Say(
                ReplyView::Text("Already using bot: "@ + target),
            )
            &&& !offered ==> answer == BotCommandView::Say(
                ReplyView::Error(
                    "Bot '"@ + target + "' is not available on this channel. Use /bot to list."@,
                ),
            )
        }),
{
    let target = trim(name);
    let names = texts(channel.bots@);
    if names.contains(target) {
        let i = names.index_of(target);
        assert(channel.bots@[i]@ == target);
    } else {
        assert forall|i: int| 0 <= i < channel.bots@.len() implies (
        #[trigger] channel.bots@[i])@ != target by {
            assert(names[i] == channel.bots@[i]@);
        }
    }
}

/// The user reads that a change of bots begins, and then whether it was made; of
/// both with the name of the bot.
pub proof fn switches_are_reported(target: Seq<char>)
    ensures
        switch_replies(target, true) == seq![
            ReplyView::Text("Switching to bot: "@ + target + "..."@),
            ReplyView::Text("Switched to bot: "@ + target),
        ],
        switch_replies(target, false) == seq![
            ReplyView::Text("Switching to bot: "@ + target + "..."@),
            ReplyView::Error("Failed to start bot: "@ + ("Bot config not found: "@ + target)),
        ],
{
}

/// What a command comes to is taken by its words and the bot that it names.
pub proof fn outcomes_are_taken_by_their_words(message: OutgoingMessage, target: String)
    ensures
        BotCommand::Say(message)@ == BotCommandView::Say(message@),
        (BotCommand::Switch { target })@ == (BotCommandView::Switch { target: target@ }),
{
}

/// Asked without a name, the channel's bots are told line by line, and the one that
/// the chat has is marked, wherever it stands.
pub proof fn the_bot_in_use_is_marked(
    config: &Config,
    channel: &ChannelConfig,
    current: &Option<String>,
    args: &Option<String>,
    r: BotCommand,
    lines: Seq<Seq<char>>,
)
    requires
        call_ensures(decide_bot_command, (config, channel, current, args), r),
        *args is None,
        lines.len() == channel.bots@.len(),
        forall|i: int|
            0 <= i < lines.len() ==> #[trigger] lines[i] == "- "@ + channel.bots@[i]@ + (if (
            *current is Some && (*current)->0@ == channel.bots@[i]@) {
                " (current)"@
            } else {
                ""@
            }) + " — "@ + (description_of(config.bots@, channel.bots@[i]@) + "\n"@),
    ensures
        r@ == BotCommandView::Say(
            ReplyView::Text(trim("Available bots:\n"@ + joined(lines, Seq::empty()))),
        ),
{
    let known = opt_text(*current);
    lists_mark_the_bot_in_use(*config, *channel, known);
    assert(lines =~= Seq::new(
        channel.bots@.len(),
        |i: int|
            "- "@ + channel.bots@[i]@ + (if known == Some(channel.bots@[i]@) {
                " (current)"@
            } else {
                ""@
            }) + " — "@ + (description_of(config.bots@, channel.bots@[i]@) + "\n"@),
    ));
}

/// A bot that the channel offers, and the chat does not have yet, is switched to;
/// any other is refused.
pub proof fn offered_bots_are_switched_to(
    config: &Config,
    channel: &ChannelConfig,
    current: &Option<String>,
    args: &Option<String>,
    r: BotCommand,
    i: int,
)
    requires
        call_ensures(decide_bot_command, (config, channel, current, args), r),
        *args is Some,
    ensures
        0 <= i < channel.bots@.len() && channel.bots@[i]@ == trim((*args)->0@) && opt_text(*current)
            != Some(channel.bots@[i]@) ==> r@ == (BotCommandView::Switch {
            target: channel.bots@[i]@,
        }),
        (forall|j: int|
            0 <= j < channel.bots@.len() ==> (#[trigger] channel.bots@[j])@ != trim((*args)->0@))
            ==> r@ is Say,
{
    let names = texts(channel.bots@);
    let target = trim((*args)->0@);
    if 0 <= i < names.len() {
        assert(names[i] == channel.bots@[i]@);
    }
    if names.contains(target) {
        let j = names.index_of(target);
        assert(channel.bots@[j]@ == target);
    }
}

}
