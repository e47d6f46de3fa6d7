//! The orchestrator: makes bots when chats need them, keeps track of them, and
//! lets them find each other.

use crate::acp_client::stream::replies;
use crate::bot_command::{
    bot_command, decide_bot_command, report_switch, switch_replies, BotCommand, BotCommandView,
};
use crate::channel::{ChatId, OutgoingContent, OutgoingMessage, ReplyView};
use crate::config::{
    bot_named, bots_are_found_by_name, channel_named, channels_are_found_by_name, lemma_bot_named,
    new_chats_start_with_the_default, starting_bot, the_first_bot_of_a_name_is_taken, BotConfig,
    ChannelConfig, Config,
};
use crate::ingress::{
    bot_for, chat_key, chats_of, current_bot, find_idle, idle_set, instance, instance_key, key_views,
    remove_chats, remove_each, ChatKey, Switched,
};
use crate::message_bus::{BotInstanceKey, BusError, BusErrorView, InstanceView, MessageBus};
use crate::message_bus::{bus_error_text, line_of};
use crate::split::{cat, copy_opt, lists, opt_text, same, texts};
use crate::table::{Key, Table};
use vstd::prelude::*;
use vstd::string::*;

verus! {

/// What other bots are told of a bot.
#[derive(Debug, Clone)]
pub struct BotInfo {
    pub name: String,
    pub description: Option<String>,
}

/// What other bots are told of a bot, as text.
pub struct BotInfoView {
    pub name: Seq<char>,
    pub description: Option<Seq<char>>,
}

impl View for BotInfo {
    type V = BotInfoView;

    open spec fn view(&self) -> BotInfoView {
        BotInfoView { name: self.name@, description: opt_text(self.description) }
    }
}

/// Some bots, as text.
pub open spec fn info_views(v: Seq<BotInfo>) -> Seq<BotInfoView> {
    v.map_values(|b: BotInfo| b@)
}

/// What other bots are told of a configured bot.
pub open spec fn info_of(b: BotConfig) -> BotInfoView {
    BotInfoView { name: b.name@, description: opt_text(b.description) }
}

/// The bots: which one each chat has, and when each was last used.
#[verifier::ext_equal]
pub struct BotsView {
    pub active: Map<(Seq<char>, Seq<char>), Seq<char>>,
    pub running: Map<InstanceView, u64>,
}

/// The bots, with one more, which its chat now has.
pub open spec fn with_bot(
    s: BotsView,
    channel: Seq<char>,
    chat: Seq<char>,
    bot: Seq<char>,
    now: u64,
) -> BotsView {
    BotsView {
        active: s.active.insert((channel, chat), bot),
        running: s.running.insert(instance(channel, chat, bot), now),
    }
}

/// The bots, without one that has ended. Its chat loses it, unless the chat has
/// another by now.
pub open spec fn without_bot(s: BotsView, channel: Seq<char>, chat: Seq<char>, bot: Seq<char>) -> BotsView {
    BotsView {
        active: if current_bot(s.active, channel, chat) == Some(bot) {
            s.active.remove((channel, chat))
        } else {
            s.active
        },
        running: s.running.remove(instance(channel, chat, bot)),
    }
}

/// Whether a chat has a bot that is at work.
pub open spec fn is_served(s: BotsView, channel: Seq<char>, chat: Seq<char>) -> bool {
    s.active.contains_key((channel, chat)) && s.running.contains_key(
        instance(channel, chat, s.active[(channel, chat)]),
    )
}

/// The bots, once a chat that is not served has lost what bot it had.
pub open spec fn unserved(s: BotsView, channel: Seq<char>, chat: Seq<char>) -> BotsView {
    BotsView { active: s.active.remove((channel, chat)), ..s }
}

/// The first channel that offers a bot.
pub open spec fn offering(channels: Seq<ChannelConfig>, bot: Seq<char>) -> Option<Seq<char>>
    decreases channels.len(),
{
    if channels.len() == 0 {
        None
    } else if texts(channels[0].bots@).contains(bot) {
        Some(channels[0].name@)
    } else {
        offering(channels.skip(1), bot)
    }
}

/// The first channel other than `here` that offers a bot.
pub open spec fn offering_elsewhere(channels: Seq<ChannelConfig>, bot: Seq<char>, here: Seq<char>) -> Option<
    Seq<char>,
>
    decreases channels.len(),
{
    if channels.len() == 0 {
        None
    } else if texts(channels[0].bots@).contains(bot) && channels[0].name@ != here {
        Some(channels[0].name@)
    } else {
        offering_elsewhere(channels.skip(1), bot, here)
    }
}

/// The channel on which a bot is mentioned: another one than `here` where there
/// is one.
pub open spec fn mention_channel(channels: Seq<ChannelConfig>, bot: Seq<char>, here: Seq<char>) -> Option<
    Seq<char>,
> {
    match offering_elsewhere(channels, bot, here) {
        Some(name) => Some(name),
        None => offering(channels, bot),
    }
}

/// The bots that a channel offers, without the one that asks and without those
/// that are not configured.
pub open spec fn offered_others(config: Config, names: Seq<Seq<char>>, caller: Seq<char>) -> Seq<
    BotInfoView,
>
    decreases names.len(),
{
    if names.len() == 0 {
        Seq::empty()
    } else {
        let rest = offered_others(config, names.drop_last(), caller);
        match bot_named(config.bots@, names.last()) {
            Some(b) => if names.last() != caller {
                rest.push(info_of(b))
            } else {
                rest
            },
            None => rest,
        }
    }
}

/// Whether another bot than the one that asks, one that is configured, is at
/// work in a chat, whatever the channel.
pub open spec fn at_work(
    config: Config,
    running: Map<InstanceView, u64>,
    chat: Seq<char>,
    caller: Seq<char>,
    name: Seq<char>,
) -> bool {
    &&& name != caller
    &&& bot_named(config.bots@, name) is Some
    &&& exists|k: InstanceView| #[trigger]
        running.contains_key(k) && k.chat_id == chat && k.bot_name == name
}

/// The names of some bots.
pub open spec fn info_names(v: Seq<BotInfo>) -> Seq<Seq<char>> {
    v.map_values(|b: BotInfo| b.name@)
}

/// What came of asking for the bot of a chat.
#[derive(Debug)]
pub struct Served {
    /// The bot, if the chat can have one.
    pub bot_name: Option<String>,
    /// Whether it is to be started.
    pub start: bool,
    /// The line of a bot that is no longer at work and is to be told to end.
    pub shutdown: Option<u64>,
    /// The line of a bot whose place this one takes; it is closed now.
    pub replaced: Option<u64>,
}

/// What comes of asking for the bot of a chat, as plain values: the bots and the
/// lines then, and the answer.
pub struct ServiceView {
    pub bots: BotsView,
    pub lines: Map<InstanceView, u64>,
    pub bot_name: Option<Seq<char>>,
    pub start: bool,
    pub shutdown: Option<u64>,
    pub replaced: Option<u64>,
}

/// The bot of a chat. One that is at work is taken; otherwise what bot the chat
/// had is taken off, and the bot that the channel starts with is taken on.
pub open spec fn service(
    config: Config,
    s: BotsView,
    lines: Map<InstanceView, u64>,
    channel: Seq<char>,
    chat: Seq<char>,
    now: u64,
    line: u64,
) -> ServiceView {
    let current = current_bot(s.active, channel, chat);
    if is_served(s, channel, chat) {
        let bot = s.active[(channel, chat)];
        ServiceView {
            bots: BotsView { running: s.running.insert(instance(channel, chat, bot), now), ..s },
            lines,
            bot_name: Some(bot),
            start: false,
            shutdown: None,
            replaced: None,
        }
    } else {
        let rest = unserved(s, channel, chat);
        let rest_lines = match current {
            Some(bot) => lines.remove(instance(channel, chat, bot)),
            None => lines,
        };
        let shutdown = match current {
            Some(bot) => line_of(lines, instance(channel, chat, bot)),
            None => None,
        };
        match bot_for(config, channel) {
            Some(bot) => ServiceView {
                bots: with_bot(rest, channel, chat, bot, now),
                lines: rest_lines.insert(instance(channel, chat, bot), line),
                bot_name: Some(bot),
                start: true,
                shutdown,
                replaced: line_of(rest_lines, instance(channel, chat, bot)),
            },
            None => ServiceView {
                bots: rest,
                lines: rest_lines,
                bot_name: None,
                start: false,
                shutdown,
                replaced: None,
            },
        }
    }
}

/// Whether an answer, with the bots and the lines then, is such a service.
pub open spec fn is_service(
    v: ServiceView,
    r: Served,
    bots: BotsView,
    lines: Map<InstanceView, u64>,
) -> bool {
    &&& bots == v.bots
    &&& lines == v.lines
    &&& opt_text(r.bot_name) == v.bot_name
    &&& r.start == v.start
    &&& r.shutdown == v.shutdown
    &&& r.replaced == v.replaced
}

/// What follows a `/bot` command.
#[derive(Debug)]
pub enum OrchestratorStep {
    /// An answer.
    Say(OutgoingMessage),
    /// A change of bots. Where a bot was at work it has been taken off, its line
    /// is told to end, and half a second passes before the change is completed.
    Switch { target: String, pause: bool, shutdown: Option<u64> },
}

/// Why a `/bot` command or a mention came to nothing.
#[derive(Debug, Clone)]
pub enum OrchestratorError {
    /// There is no such channel.
    ChannelNotFound(String),
    /// The mention could not be sent.
    MentionFailed(BusError),
}

impl OrchestratorError {
    /// How the error reads.
    pub open spec fn text(self) -> Seq<char> {
        match self {
            OrchestratorError::ChannelNotFound(name) => "Channel not found: "@ + name@,
            OrchestratorError::MentionFailed(e) => "Failed to send mention: "@ + bus_error_text(e@),
        }
    }

    /// The error in words.
    pub fn message(&self) -> (r: String)
        ensures
            r@ == self.text(),
    {
        match self {
            OrchestratorError::ChannelNotFound(name) => cat("Channel not found: ", name.as_str()),
            OrchestratorError::MentionFailed(e) => {
                let why = e.message();
                cat("Failed to send mention: ", why.as_str())
            },
        }
    }
}

/// The bots of all chats.
#[derive(Debug)]
pub struct Orchestrator {
    config: Config,
    mcp_server_port: Option<u16>,
    active: Table<ChatKey, String>,
    running: Table<BotInstanceKey, u64>,
}

impl Orchestrator {
    /// No chat and no bot occurs twice.
    pub closed spec fn wf(&self) -> bool {
        self.active.wf() && self.running.wf()
    }

    /// The configuration.
    pub closed spec fn config(&self) -> Config {
        self.config
    }

    /// The port of the MCP server.
    pub closed spec fn port(&self) -> Option<u16> {
        self.mcp_server_port
    }

    /// The bots.
    pub closed spec fn bots(&self) -> BotsView {
        BotsView { active: self.active@, running: self.running@ }
    }

    /// Whether two orchestrators differ in their bots only.
    pub open spec fn same_setup(&self, other: &Self) -> bool {
        self.config() == other.config() && self.port() == other.port()
    }

    /// No bots yet.
    pub fn new(config: Config, mcp_server_port: Option<u16>) -> (r: Self)
        ensures
            r.wf(),
            r.config() == config,
            r.port() == mcp_server_port,
            r.bots() == (BotsView { active: Map::empty(), running: Map::empty() }),
    {
        Orchestrator { config, mcp_server_port, active: Table::new(), running: Table::new() }
    }

    /// The port of the MCP server.
    pub fn mcp_server_port(&self) -> (r: Option<u16>)
        ensures
            r == self.port(),
    {
        self.mcp_server_port
    }

    /// Finds a bot's configuration.
    pub fn get_bot(&self, name: &str) -> (r: Option<&BotConfig>)
        ensures
            match r {
                Some(b) => bot_named(self.config().bots@, name@) == Some(*b),
                None => bot_named(self.config().bots@, name@) is None,
            },
    {
        self.config.get_bot(name)
    }

    /// The bot that a chat has.
    pub fn current(&self, channel_name: &str, chat_id: &ChatId) -> (r: Option<String>)
        requires
            self.wf(),
        ensures
            opt_text(r) == current_bot(self.bots().active, channel_name@, chat_id@),
    {
        match self.active.get(&chat_key(channel_name, chat_id)) {
            Some(name) => Some(name.clone()),
            None => None,
        }
    }

    /// Whether a bot is at work.
    pub fn is_running(&self, key: &BotInstanceKey) -> (r: bool)
        requires
            self.wf(),
        ensures
            r == self.bots().running.contains_key(key@),
    {
        self.running.contains(key)
    }

    /// Finds the bot of a chat. Where none is at work there, the bot that the
    /// channel starts with is taken on, on `line`.
    pub fn get_or_create(
        &mut self,
        bus: &mut MessageBus,
        channel_name: &str,
        chat_id: &ChatId,
        now: u64,
        line: u64,
    ) -> (r: Served)
        requires
            old(self).wf(),
            old(bus).wf(),
        ensures
            final(self).wf(),
            final(bus).wf(),
            final(self).same_setup(old(self)),
            final(bus).channels() == old(bus).channels(),
            is_service(
                service(
                    old(self).config(),
                    old(self).bots(),
                    old(bus).bots(),
                    channel_name@,
                    chat_id@,
                    now,
                    line,
                ),
                r,
                final(self).bots(),
                final(bus).bots(),
            ),
    {
        let mut shutdown: Option<u64> = None;
        let current = self.current(channel_name, chat_id);
        if let Some(bot_name) = current {
            let key = instance_key(channel_name, chat_id, bot_name.as_str());
            if self.running.contains(&key) {
                self.running.insert(key, now);
                return Served {
                    bot_name: Some(bot_name),
                    start: false,
                    shutdown: None,
                    replaced: None,
                };
            }
            let _bot = self.active.remove(&chat_key(channel_name, chat_id));
            shutdown = bus.unregister_bot(&key);
        }
        proof {
            if !old(self).bots().active.contains_key((channel_name@, chat_id@)) {
                assert(old(self).bots().active.remove((channel_name@, chat_id@))
                    =~= old(self).bots().active);
            }
            assert(self.bots() =~= unserved(old(self).bots(), channel_name@, chat_id@));
        }
        let bot_name = match self.config.get_channel(channel_name) {
            Some(channel) => channel.starting_bot(),
            None => None,
        };
        match bot_name {
            Some(name) => match self.spawn_bot(
                bus,
                channel_name,
                chat_id,
                name.as_str(),
                now,
                line,
            ) {
                Ok(replaced) => Served { bot_name: Some(name), start: true, shutdown, replaced },
                Err(_) => Served { bot_name: None, start: false, shutdown, replaced: None },
            },
            None => Served { bot_name: None, start: false, shutdown, replaced: None },
        }
    }

    /// Takes on a bot, if it is configured; the line of the bot whose place it
    /// takes.
    fn spawn_bot(
        &mut self,
        bus: &mut MessageBus,
        channel_name: &str,
        chat_id: &ChatId,
        bot_name: &str,
        now: u64,
        line: u64,
    ) -> (r: Result<Option<u64>, ()>)
        requires
            old(self).wf(),
            old(bus).wf(),
        ensures
            final(self).wf(),
            final(bus).wf(),
            final(self).same_setup(old(self)),
            final(bus).channels() == old(bus).channels(),
            match r {
                Ok(replaced) => {
                    let key = instance(channel_name@, chat_id@, bot_name@);
                    &&& bot_named(old(self).config().bots@, bot_name@) is Some
                    &&& replaced == line_of(old(bus).bots(), key)
                    &&& final(self).bots() == with_bot(
                        old(self).bots(),
                        channel_name@,
                        chat_id@,
                        bot_name@,
                        now,
                    )
                    &&& final(bus).bots() == old(bus).bots().insert(key, line)
                },
                Err(_) => {
                    &&& bot_named(old(self).config().bots@, bot_name@) is None
                    &&& final(self).bots() == old(self).bots()
                    &&& final(bus).bots() == old(bus).bots()
                },
            },
    {
        if self.config.get_bot(bot_name).is_none() {
            return Err(());
        }
        let replaced = bus.register_bot(instance_key(channel_name, chat_id, bot_name), line);
        self.active.insert(chat_key(channel_name, chat_id), bot_name.to_string());
        self.running.insert(instance_key(channel_name, chat_id, bot_name), now);
        Ok(replaced)
    }

    /// Takes note that a bot has ended; the line on which it is told so, if it
    /// still had one.
    pub fn handle_bot_exit(
        &mut self,
        bus: &mut MessageBus,
        channel_name: &str,
        chat_id: &ChatId,
        bot_name: &str,
    ) -> (r: Option<u64>)
        requires
            old(self).wf(),
            old(bus).wf(),
        ensures
            final(self).wf(),
            final(bus).wf(),
            final(self).same_setup(old(self)),
            final(bus).channels() == old(bus).channels(),
            final(bus).bots() == old(bus).bots().remove(
                instance(channel_name@, chat_id@, bot_name@),
            ),
            final(self).bots() == without_bot(old(self).bots(), channel_name@, chat_id@, bot_name@),
            r == line_of(old(bus).bots(), instance(channel_name@, chat_id@, bot_name@)),
    {
        let key = instance_key(channel_name, chat_id, bot_name);
        let line = bus.unregister_bot(&key);
        let _bot = self.running.remove(&key);
        let is_active = match self.active.get(&chat_key(channel_name, chat_id)) {
            Some(name) => same(name.as_str(), bot_name),
            None => false,
        };
        if is_active {
            let _name = self.active.remove(&chat_key(channel_name, chat_id));
        }
        line
    }

    /// Takes a `/bot` command. Where it asks for a change of bots, the bot at
    /// work is taken off at once, and `complete_switch` makes the change.
    pub fn handle_bot_command(
        &mut self,
        bus: &mut MessageBus,
        channel_name: &str,
        chat_id: &ChatId,
        args: &Option<String>,
    ) -> (r: Result<OrchestratorStep, OrchestratorError>)
        requires
            old(self).wf(),
            old(bus).wf(),
        ensures
            final(self).wf(),
            final(bus).wf(),
            final(self).same_setup(old(self)),
            final(bus).channels() == old(bus).channels(),
            final(self).bots().active == old(self).bots().active,
            match channel_named(old(self).config().channels@, channel_name@) {
                None => {
                    &&& r matches Err(e)
                    &&& e matches OrchestratorError::ChannelNotFound(name)
                    &&& name@ == channel_name@
                    &&& final(self).bots() == old(self).bots()
                    &&& final(bus).bots() == old(bus).bots()
                },
                Some(c) => {
                    let current = current_bot(old(self).bots().active, channel_name@, chat_id@);
                    match bot_command(old(self).config(), c, current, opt_text(*args)) {
                        BotCommandView::Say(m) => {
                            &&& r matches Ok(OrchestratorStep::Say(said))
                            &&& said@ == m
                            &&& final(self).bots() == old(self).bots()
                            &&& final(bus).bots() == old(bus).bots()
                        },
                        BotCommandView::Switch { target } => {
                            &&& r matches Ok(OrchestratorStep::Switch { target: t, pause, shutdown })
                            &&& t@ == target
                            &&& pause == is_served(old(self).bots(), channel_name@, chat_id@)
                            &&& if pause {
                                let key = instance(channel_name@, chat_id@, current->0);
                                &&& shutdown == line_of(old(bus).bots(), key)
                                &&& final(self).bots().running == old(self).bots().running.remove(
                                    key,
                                )
                                &&& final(bus).bots() == old(bus).bots().remove(key)
                            } else {
                                &&& shutdown is None
                                &&& final(self).bots() == old(self).bots()
                                &&& final(bus).bots() == old(bus).bots()
                            }
                        },
                    }
                },
            },
    {
        let current = self.current(channel_name, chat_id);
        let decision = match self.config.get_channel(channel_name) {
            Some(channel) => decide_bot_command(&self.config, channel, &current, args),
            None => {
                return Err(OrchestratorError::ChannelNotFound(channel_name.to_string()));
            },
        };
        match decision {
            BotCommand::Say(m) => Ok(OrchestratorStep::Say(m)),
            BotCommand::Switch { target } => {
                if let Some(old_name) = current {
                    let key = instance_key(channel_name, chat_id, old_name.as_str());
                    if self.running.contains(&key) {
                        let _bot = self.running.remove(&key);
                        let shutdown = bus.unregister_bot(&key);
                        return Ok(OrchestratorStep::Switch { target, pause: true, shutdown });
                    }
                }
                Ok(OrchestratorStep::Switch { target, pause: false, shutdown: None })
            },
        }
    }

    /// Gives a chat another bot, on `line`.
    pub fn complete_switch(
        &mut self,
        bus: &mut MessageBus,
        channel_name: &str,
        chat_id: &ChatId,
        target: &str,
        now: u64,
        line: u64,
    ) -> (r: Switched)
        requires
            old(self).wf(),
            old(bus).wf(),
        ensures
            final(self).wf(),
            final(bus).wf(),
            final(self).same_setup(old(self)),
            final(bus).channels() == old(bus).channels(),
            r.started == (bot_named(old(self).config().bots@, target@) is Some),
            replies(r.say@) == switch_replies(target@, r.started),
            r.replaced == if r.started {
                line_of(old(bus).bots(), instance(channel_name@, chat_id@, target@))
            } else {
                None
            },
            r.started ==> final(self).bots() == with_bot(
                old(self).bots(),
                channel_name@,
                chat_id@,
                target@,
                now,
            ) && final(bus).bots() == old(bus).bots().insert(
                instance(channel_name@, chat_id@, target@),
                line,
            ),
            !r.started ==> final(self).bots() == unserved(old(self).bots(), channel_name@, chat_id@)
                && final(bus).bots() == old(bus).bots(),
    {
        let _old = self.active.remove(&chat_key(channel_name, chat_id));
        match self.spawn_bot(bus, channel_name, chat_id, target, now, line) {
            Ok(replaced) => {
                proof {
                    assert(self.bots() =~= with_bot(
                        old(self).bots(),
                        channel_name@,
                        chat_id@,
                        target@,
                        now,
                    ));
                }
                Switched { say: report_switch(target, true), started: true, replaced }
            },
            Err(_) => Switched { say: report_switch(target, false), started: false, replaced: None },
        }
    }

    /// Takes off the bots that have been idle for longer than `timeout`: those
    /// that were taken off, each once, with the lines on which they are told to
    /// end.
    pub fn cleanup_idle(&mut self, bus: &mut MessageBus, now: u64, timeout: u64) -> (r: (
        Vec<BotInstanceKey>,
        Vec<Option<u64>>,
    ))
        requires
            old(self).wf(),
            old(bus).wf(),
        ensures
            final(self).wf(),
            final(bus).wf(),
            final(self).same_setup(old(self)),
            final(bus).channels() == old(bus).channels(),
            key_views(r.0@).no_duplicates(),
            key_views(r.0@).to_set() == idle_set(old(self).bots().running, now, timeout),
            r.1@.len() == r.0@.len(),
            forall|i: int|
                0 <= i < r.0@.len() ==> #[trigger] r.1@[i] == line_of(old(bus).bots(), r.0@[i]@),
            final(self).bots() == (BotsView {
                active: old(self).bots().active.remove_keys(
                    chats_of(idle_set(old(self).bots().running, now, timeout)),
                ),
                running: old(self).bots().running.remove_keys(
                    idle_set(old(self).bots().running, now, timeout),
                ),
            }),
            final(bus).bots() == old(bus).bots().remove_keys(
                idle_set(old(self).bots().running, now, timeout),
            ),
    {
        let expired = find_idle(&self.running, now, timeout);
        remove_each(&mut self.running, &expired);
        let mut lines: Vec<Option<u64>> = Vec::new();
        let mut i: usize = 0;
        let ghost keys = key_views(expired@);
        proof {
            assert(keys.take(0).to_set() =~= Set::<InstanceView>::empty());
            assert(bus.bots().remove_keys(Set::<InstanceView>::empty()) =~= bus.bots());
        }
        while i < expired.len()
            invariant
                i <= expired@.len(),
                keys == key_views(expired@),
                keys.no_duplicates(),
                bus.wf(),
                bus.channels() == old(bus).channels(),
                bus.bots() == old(bus).bots().remove_keys(keys.take(i as int).to_set()),
                lines@.len() == i,
                forall|j: int|
                    0 <= j < i ==> #[trigger] lines@[j] == line_of(old(bus).bots(), expired@[j]@),
            decreases expired@.len() - i,
        {
            let ghost seen = keys.take(i as int);
            let ghost more = keys.take(i + 1);
            let ghost key = expired@[i as int]@;
            proof {
                assert(more == seen.push(key));
                assert(!seen.to_set().contains(key)) by {
                    if seen.contains(key) {
                        let j = seen.index_of(key);
                        assert(keys[j] == keys[i as int]);
                    }
                }
            }
            let line = bus.unregister_bot(&expired[i]);
            lines.push(line);
            proof {
                assert(more.to_set() =~= seen.to_set().insert(key)) by {
                    assert forall|k: InstanceView| more.contains(k) <==> seen.contains(k) || k
                        == key by {
                        if seen.contains(k) {
                            assert(more[seen.index_of(k)] == k);
                        }
                        assert(more[i as int] == key);
                    }
                }
                assert(bus.bots() =~= old(bus).bots().remove_keys(more.to_set()));
            }
            i += 1;
        }
        proof {
            assert(keys.take(expired@.len() as int) == keys);
        }
        remove_chats(&mut self.active, &expired);
        (expired, lines)
    }

    /// The other bots at work in a chat, or, where there are none, the other
    /// bots that the channel offers.
    pub fn search_bots(&self, channel_name: &str, chat_id: &ChatId, caller_bot: &str) -> (r: Vec<
        BotInfo,
    >)
        requires
            self.wf(),
        ensures
            ({
                let somebody = exists|name: Seq<char>|
                    #[trigger] at_work(
                        self.config(),
                        self.bots().running,
                        chat_id@,
                        caller_bot@,
                        name,
                    );
                &&& somebody ==> {
                    &&& info_names(r@).no_duplicates()
                    &&& forall|name: Seq<char>| #[trigger]
                        info_names(r@).contains(name) <==> at_work(
                            self.config(),
                            self.bots().running,
                            chat_id@,
                            caller_bot@,
                            name,
                        )
                    &&& forall|i: int|
                        0 <= i < r@.len() ==> match bot_named(
                            self.config().bots@,
                            (#[trigger] r@[i]).name@,
                        ) {
                            Some(b) => r@[i]@ == info_of(b),
                            None => false,
                        }
                }
                &&& !somebody ==> info_views(r@) == match channel_named(
                    self.config().channels@,
                    channel_name@,
                ) {
                    Some(c) => offered_others(self.config(), texts(c.bots@), caller_bot@),
                    None => Seq::empty(),
                }
            }),
    {
        let found = self.search_running(chat_id, caller_bot);
        if found.len() > 0 {
            proof {
                let name = info_names(found@)[0];
                assert(info_names(found@).contains(name));
            }
            return found;
        }
        proof {
            assert forall|name: Seq<char>| !(#[trigger] at_work(
                self.config(),
                self.bots().running,
                chat_id@,
                caller_bot@,
                name,
            )) by {
                assert(!info_names(found@).contains(name));
            }
        }
        match self.config.get_channel(channel_name) {
            Some(channel) => self.search_offered(&channel.bots, caller_bot),
            None => {
                let none: Vec<BotInfo> = Vec::new();
                assert(info_views(none@) =~= Seq::<BotInfoView>::empty());
                none
            },
        }
    }

    /// The other bots at work in a chat, each once.
    fn search_running(&self, chat_id: &ChatId, caller_bot: &str) -> (r: Vec<BotInfo>)
        requires
            self.wf(),
        ensures
            info_names(r@).no_duplicates(),
            forall|name: Seq<char>| #[trigger]
                info_names(r@).contains(name) <==> at_work(
                    self.config(),
                    self.bots().running,
                    chat_id@,
                    caller_bot@,
                    name,
                ),
            forall|i: int|
                0 <= i < r@.len() ==> match bot_named(
                    self.config().bots@,
                    (#[trigger] r@[i]).name@,
                ) {
                    Some(b) => r@[i]@ == info_of(b),
                    None => false,
                },
    {
        let mut r: Vec<BotInfo> = Vec::new();
        let mut seen: Vec<String> = Vec::new();
        let n: usize = self.running.len();
        let mut i: usize = 0;
        let ghost keys = self.running.keys();
        while i < n
            invariant
                i <= n,
                n == keys.len(),
                keys == self.running.keys(),
                self.wf(),
                texts(seen@) == info_names(r@),
                info_names(r@).no_duplicates(),
                forall|j: int|
                    0 <= j < r@.len() ==> match bot_named(
                        self.config().bots@,
                        (#[trigger] r@[j]).name@,
                    ) {
                        Some(b) => r@[j]@ == info_of(b),
                        None => false,
                    },
                forall|name: Seq<char>| #[trigger]
                    info_names(r@).contains(name) <==> named_before(
                        self.config(),
                        keys,
                        i as int,
                        chat_id@,
                        caller_bot@,
                        name,
                    ),
            decreases n - i,
        {
            let key = self.running.key_at(i);
            let ghost before = r@;
            if key.chat_id.same_key(chat_id) && !same(key.bot_name.as_str(), caller_bot) && !lists(
                &seen,
                key.bot_name.as_str(),
            ) {
                if let Some(b) = self.config.get_bot(key.bot_name.as_str()) {
                    proof {
                        lemma_bot_named(self.config.bots@, key.bot_name@);
                    }
                    seen.push(key.bot_name.clone());
                    r.push(BotInfo { name: b.name.clone(), description: copy_opt(&b.description) });
                    proof {
                        assert(info_names(r@) == info_names(before).push(key.bot_name@));
                        assert(texts(seen@) =~= info_names(r@));
                    }
                }
            }
            proof {
                self.lemma_named_next(keys, i as int, chat_id@, caller_bot@, before, r@);
            }
            i += 1;
        }
        proof {
            assert forall|name: Seq<char>| #[trigger]
                info_names(r@).contains(name) <==> at_work(
                    self.config(),
                    self.bots().running,
                    chat_id@,
                    caller_bot@,
                    name,
                ) by {
                self.running.lemma_keys();
                if named_before(self.config(), keys, n as int, chat_id@, caller_bot@, name) {
                    let j = choose|j: int|
                        0 <= j < n && (#[trigger] keys[j]).chat_id == chat_id@ && keys[j].bot_name
                            == name;
                    assert(keys.to_set().contains(keys[j]));
                    assert(self.bots().running.contains_key(keys[j]));
                }
                if at_work(self.config(), self.bots().running, chat_id@, caller_bot@, name) {
                    let k = choose|k: InstanceView| #[trigger]
                        self.bots().running.contains_key(k) && k.chat_id == chat_id@ && k.bot_name
                            == name;
                    assert(keys.to_set().contains(k));
                    let j = keys.index_of(k);
                    assert(keys[j] == k);
                }
            }
        }
        r
    }

    /// What one more bot at work adds to the names.
    proof fn lemma_named_next(
        &self,
        keys: Seq<InstanceView>,
        i: int,
        chat: Seq<char>,
        caller: Seq<char>,
        before: Seq<BotInfo>,
        after: Seq<BotInfo>,
    )
        requires
            0 <= i < keys.len(),
            forall|name: Seq<char>| #[trigger]
                info_names(before).contains(name) <==> named_before(
                    self.config(),
                    keys,
                    i,
                    chat,
                    caller,
                    name,
                ),
            ({
                let name = keys[i].bot_name;
                if keys[i].chat_id == chat && name != caller && !info_names(before).contains(name)
                    && bot_named(self.config().bots@, name) is Some {
                    info_names(after) == info_names(before).push(name)
                } else {
                    after == before
                }
            }),
        ensures
            forall|name: Seq<char>| #[trigger]
                info_names(after).contains(name) <==> named_before(
                    self.config(),
                    keys,
                    i + 1,
                    chat,
                    caller,
                    name,
                ),
    {
        assert forall|name: Seq<char>| #[trigger]
            info_names(after).contains(name) <==> named_before(
                self.config(),
                keys,
                i + 1,
                chat,
                caller,
                name,
            ) by {
            let names = info_names(before);
            assert(names.push(keys[i].bot_name).contains(name) <==> names.contains(name) || name
                == keys[i].bot_name) by {
                if names.contains(name) {
                    assert(names.push(keys[i].bot_name)[names.index_of(name)] == name);
                }
                assert(names.push(keys[i].bot_name)[names.len() as int] == keys[i].bot_name);
            }
            assert(names.contains(name) <==> named_before(
                self.config(),
                keys,
                i,
                chat,
                caller,
                name,
            ));
            if named_before(self.config(), keys, i, chat, caller, name) {
                let j = choose|j: int|
                    0 <= j < i && (#[trigger] keys[j]).chat_id == chat && keys[j].bot_name == name;
                assert(keys[j].chat_id == chat);
            }
            if keys[i].chat_id == chat && keys[i].bot_name == name {
                assert(keys[i].bot_name == name);
            }
        }
    }

    /// The other bots of a list that are configured.
    fn search_offered(&self, names: &Vec<String>, caller_bot: &str) -> (r: Vec<BotInfo>)
        ensures
            info_views(r@) == offered_others(self.config(), texts(names@), caller_bot@),
    {
        let mut r: Vec<BotInfo> = Vec::new();
        let mut i: usize = 0;
        proof {
            assert(info_views(r@) =~= Seq::<BotInfoView>::empty());
        }
        while i < names.len()
            invariant
                i <= names@.len(),
                info_views(r@) == offered_others(
                    self.config(),
                    texts(names@).take(i as int),
                    caller_bot@,
                ),
            decreases names@.len() - i,
        {
            proof {
                assert(texts(names@).take(i + 1).drop_last() == texts(names@).take(i as int));
                assert(texts(names@).take(i + 1).last() == names@[i as int]@);
            }
            if !same(names[i].as_str(), caller_bot) {
                if let Some(b) = self.config.get_bot(names[i].as_str()) {
                    let ghost before = r@;
                    let info = BotInfo {
                        name: b.name.clone(),
                        description: copy_opt(&b.description),
                    };
                    r.push(info);
                    assert(info_views(r@) =~= info_views(before).push(info@));
                }
            }
            i += 1;
        }
        proof {
            assert(texts(names@).take(names@.len() as int) == texts(names@));
        }
        r
    }

    /// The message that mentions a bot, and the line of the channel that it goes
    /// out on.
    pub fn mention_bot(
        &self,
        bus: &MessageBus,
        channel_name: &str,
        target_bot: &str,
        message: &str,
    ) -> (r: Result<(u64, OutgoingMessage), OrchestratorError>)
        requires
            bus.wf(),
        ensures
            match r {
                Ok(sent) => {
                    &&& bus.channels().contains_key(channel_name@)
                    &&& sent.0 == bus.channels()[channel_name@]
                    &&& sent.1@ == (ReplyView::Mention {
                        target_bot: target_bot@,
                        target_channel_name: mention_channel(
                            self.config().channels@,
                            target_bot@,
                            channel_name@,
                        ),
                        message: message@,
                    })
                },
                Err(e) => {
                    &&& !bus.channels().contains_key(channel_name@)
                    &&& e matches OrchestratorError::MentionFailed(why)
                    &&& why@ == BusErrorView::ChannelNotFound(channel_name@)
                },
            },
    {
        let target_channel_name = self.channel_for_mention(target_bot, channel_name);
        match bus.send(channel_name) {
            Ok(line) => Ok(
                (
                    line,
                    OutgoingMessage {
                        content: OutgoingContent::Mention {
                            target_bot: target_bot.to_string(),
                            target_channel_name,
                            message: message.to_string(),
                        },
                    },
                ),
            ),
            Err(e) => Err(OrchestratorError::MentionFailed(e)),
        }
    }

    /// The channel on which a bot is mentioned.
    fn channel_for_mention(&self, bot: &str, here: &str) -> (r: Option<String>)
        ensures
            opt_text(r) == mention_channel(self.config().channels@, bot@, here@),
    {
        let ghost all = self.config.channels@;
        let n: usize = self.config.channels.len();
        let mut first: Option<usize> = None;
        let mut i: usize = 0;
        proof {
            assert(all.skip(0) == all);
        }
        while i < n
            invariant
                i <= n,
                n == all.len(),
                all == self.config.channels@,
                offering_elsewhere(all, bot@, here@) == offering_elsewhere(
                    all.skip(i as int),
                    bot@,
                    here@,
                ),
                match first {
                    Some(f) => f < n && offering(all, bot@) == Some(all[f as int].name@),
                    None => offering(all, bot@) == offering(all.skip(i as int), bot@),
                },
            decreases n - i,
        {
            proof {
                assert(all.skip(i as int)[0] == all[i as int]);
                assert(all.skip(i as int).skip(1) == all.skip(i + 1));
            }
            let channel = &self.config.channels[i];
            if lists(&channel.bots, bot) {
                if !same(channel.name.as_str(), here) {
                    return Some(channel.name.clone());
                }
                if first.is_none() {
                    first = Some(i);
                }
            }
            i += 1;
        }
        match first {
            Some(f) => Some(self.config.channels[f].name.clone()),
            None => None,
        }
    }
}

/// Whether one of the first `n` bots at work is another one of this name in a
/// chat, and configured.
pub open spec fn named_before(
    config: Config,
    keys: Seq<InstanceView>,
    n: int,
    chat: Seq<char>,
    caller: Seq<char>,
    name: Seq<char>,
) -> bool {
    &&& name != caller
    &&& bot_named(config.bots@, name) is Some
    &&& exists|j: int| 0 <= j < n && (#[trigger] keys[j]).chat_id == chat && keys[j].bot_name == name
}

// ---------------------------------------------------------------------------
// Laws
// ---------------------------------------------------------------------------

/// Whether every bot at work is on the bus.
pub open spec fn all_on_bus(s: BotsView, lines: Map<InstanceView, u64>) -> bool {
    forall|key: InstanceView| #[trigger] s.running.contains_key(key) ==> lines.contains_key(key)
}

/// The bot of a chat is always reached: whatever bot a chat is given is at work
/// and on the bus, and every bot at work stays on the bus.
pub proof fn served_bots_are_reached(
    config: Config,
    s: BotsView,
    lines: Map<InstanceView, u64>,
    channel: Seq<char>,
    chat: Seq<char>,
    now: u64,
    line: u64,
)
    requires
        all_on_bus(s, lines),
    ensures
        ({
            let v = service(config, s, lines, channel, chat, now, line);
            &&& all_on_bus(v.bots, v.lines)
            &&& v.bot_name matches Some(bot) ==> {
                &&& is_served(v.bots, channel, chat)
                &&& v.bots.active[(channel, chat)] == bot
                &&& line_of(v.lines, instance(channel, chat, bot)) is Some
                &&& v.start ==> line_of(v.lines, instance(channel, chat, bot)) == Some(line)
            }
        }),
{
}

/// On a channel of a valid configuration every chat gets a bot.
pub proof fn valid_channels_serve_every_chat(
    config: Config,
    s: BotsView,
    lines: Map<InstanceView, u64>,
    channel: Seq<char>,
    chat: Seq<char>,
    now: u64,
    line: u64,
)
    requires
        crate::config::config_error(config.bots@, config.channels@) is None,
        channel_named(config.channels@, channel) is Some,
    ensures
        service(config, s, lines, channel, chat, now, line).bot_name is Some,
{
    crate::ingress::lemma_bot_for(config, channel);
}

/// A chat keeps the bot that it was given: asking again, at any later time,
/// gives the same bot, and starts none.
pub proof fn chats_keep_their_bot(
    config: Config,
    s: BotsView,
    lines: Map<InstanceView, u64>,
    channel: Seq<char>,
    chat: Seq<char>,
    now: u64,
    line: u64,
    later: u64,
    other_line: u64,
)
    requires
        service(config, s, lines, channel, chat, now, line).bot_name is Some,
    ensures
        ({
            let v = service(config, s, lines, channel, chat, now, line);
            let w = service(config, v.bots, v.lines, channel, chat, later, other_line);
            w.bot_name == v.bot_name && !w.start && w.shutdown is None
        }),
{
}

/// Each chat has its own bots: giving a chat a bot changes nothing for any other
/// chat.
pub proof fn chats_do_not_share_bots(
    config: Config,
    s: BotsView,
    lines: Map<InstanceView, u64>,
    channel: Seq<char>,
    chat: Seq<char>,
    now: u64,
    line: u64,
    key: InstanceView,
)
    requires
        (key.channel_name, key.chat_id) != (channel, chat),
    ensures
        ({
            let v = service(config, s, lines, channel, chat, now, line);
            &&& current_bot(v.bots.active, key.channel_name, key.chat_id) == current_bot(
                s.active,
                key.channel_name,
                key.chat_id,
            )
            &&& line_of(v.bots.running, key) == line_of(s.running, key)
            &&& line_of(v.lines, key) == line_of(lines, key)
        }),
{
}

/// When a bot has ended nothing of it is left, and its chat has it no more; but
/// where the chat has another bot by now, it keeps that one.
pub proof fn ended_bots_leave_no_trace(
    s: BotsView,
    lines: Map<InstanceView, u64>,
    channel: Seq<char>,
    chat: Seq<char>,
    bot: Seq<char>,
)
    requires
        all_on_bus(s, lines),
    ensures
        ({
            let key = instance(channel, chat, bot);
            let after = without_bot(s, channel, chat, bot);
            &&& !after.running.contains_key(key)
            &&& line_of(lines.remove(key), key) is None
            &&& current_bot(after.active, channel, chat) != Some(bot)
            &&& current_bot(s.active, channel, chat) != Some(bot) ==> after.active == s.active
            &&& all_on_bus(after, lines.remove(key))
        }),
{
}

/// After a change of bots the chat has the new one.
pub proof fn switched_chats_have_the_new_bot(
    config: Config,
    s: BotsView,
    lines: Map<InstanceView, u64>,
    channel: Seq<char>,
    chat: Seq<char>,
    target: Seq<char>,
    now: u64,
    line: u64,
    later: u64,
    other_line: u64,
)
    ensures
        ({
            let after = with_bot(s, channel, chat, target, now);
            let after_lines = lines.insert(instance(channel, chat, target), line);
            let v = service(config, after, after_lines, channel, chat, later, other_line);
            &&& v.bot_name == Some(target)
            &&& !v.start
            &&& line_of(v.lines, instance(channel, chat, target)) == Some(line)
        }),
{
}

/// A bot is mentioned on a channel that offers it, and on another than the one
/// that it is called from wherever another offers it.
pub proof fn mentions_go_to_a_channel_of_the_bot(
    channels: Seq<ChannelConfig>,
    bot: Seq<char>,
    here: Seq<char>,
)
    ensures
        match mention_channel(channels, bot, here) {
            Some(name) => {
                &&& exists|i: int|
                    0 <= i < channels.len() && (#[trigger] channels[i]).name@ == name && texts(
                        channels[i].bots@,
                    ).contains(bot)
                &&& name == here ==> forall|i: int|
                    0 <= i < channels.len() && (#[trigger] channels[i]).name@ != here ==> !texts(
                        channels[i].bots@,
                    ).contains(bot)
            },
            None => forall|i: int|
                0 <= i < channels.len() ==> !texts((#[trigger] channels[i]).bots@).contains(bot),
        },
{
    lemma_offering_elsewhere(channels, bot, here);
    lemma_offering(channels, bot);
}

proof fn lemma_offering(channels: Seq<ChannelConfig>, bot: Seq<char>)
    ensures
        match offering(channels, bot) {
            Some(name) => exists|i: int|
                0 <= i < channels.len() && (#[trigger] channels[i]).name@ == name && texts(
                    channels[i].bots@,
                ).contains(bot),
            None => forall|i: int|
                0 <= i < channels.len() ==> !texts((#[trigger] channels[i]).bots@).contains(bot),
        },
    decreases channels.len(),
{
    if channels.len() > 0 {
        let rest = channels.skip(1);
        lemma_offering(rest, bot);
        if texts(channels[0].bots@).contains(bot) {
            assert(channels[0].name@ == channels[0].name@);
        } else {
            match offering(rest, bot) {
                Some(name) => {
                    let i = choose|i: int|
                        0 <= i < rest.len() && (#[trigger] rest[i]).name@ == name && texts(
                            rest[i].bots@,
                        ).contains(bot);
                    assert(channels[i + 1] == rest[i]);
                },
                None => {
                    assert forall|i: int| 0 <= i < channels.len() implies !texts(
                        (#[trigger] channels[i]).bots@,
                    ).contains(bot) by {
                        if i > 0 {
                            assert(channels[i] == rest[i - 1]);
                        }
                    }
                },
            }
        }
    }
}

proof fn lemma_offering_elsewhere(channels: Seq<ChannelConfig>, bot: Seq<char>, here: Seq<char>)
    ensures
        match offering_elsewhere(channels, bot, here) {
            Some(name) => name != here && exists|i: int|
                0 <= i < channels.len() && (#[trigger] channels[i]).name@ == name && texts(
                    channels[i].bots@,
                ).contains(bot),
            None => forall|i: int|
                0 <= i < channels.len() && (#[trigger] channels[i]).name@ != here ==> !texts(
                    channels[i].bots@,
                ).contains(bot),
        },
    decreases channels.len(),
{
    if channels.len() > 0 {
        let rest = channels.skip(1);
        lemma_offering_elsewhere(rest, bot, here);
        if texts(channels[0].bots@).contains(bot) && channels[0].name@ != here {
            assert(channels[0].name@ == channels[0].name@);
        } else {
            match offering_elsewhere(rest, bot, here) {
                Some(name) => {
                    let i = choose|i: int|
                        0 <= i < rest.len() && (#[trigger] rest[i]).name@ == name && texts(
                            rest[i].bots@,
                        ).contains(bot);
                    assert(channels[i + 1] == rest[i]);
                },
                None => {
                    assert forall|i: int|
                        0 <= i < channels.len() && (#[trigger] channels[i]).name@
                            != here implies !texts(channels[i].bots@).contains(bot) by {
                        if i > 0 {
                            assert(channels[i] == rest[i - 1]);
                        }
                    }
                },
            }
        }
    }
}

/// A bot that asks for others is never told of itself.
pub proof fn searches_leave_out_the_caller(
    config: Config,
    running: Map<InstanceView, u64>,
    chat: Seq<char>,
    names: Seq<Seq<char>>,
    caller: Seq<char>,
)
    ensures
        !at_work(config, running, chat, caller, caller),
        forall|i: int|
            0 <= i < offered_others(config, names, caller).len() ==> (#[trigger] offered_others(
                config,
                names,
                caller,
            )[i]).name != caller,
    decreases names.len(),
{
    if names.len() > 0 {
        searches_leave_out_the_caller(config, running, chat, names.drop_last(), caller);
        lemma_bot_named(config.bots@, names.last());
    }
}

/// Every bot at work stays on the bus, whatever happens: changes of bots and
/// cleaning up keep it so.
pub proof fn bots_stay_on_the_bus(
    s: BotsView,
    lines: Map<InstanceView, u64>,
    channel: Seq<char>,
    chat: Seq<char>,
    bot: Seq<char>,
    keys: Set<InstanceView>,
    now: u64,
    line: u64,
)
    requires
        all_on_bus(s, lines),
    ensures
        ({
            let key = instance(channel, chat, bot);
            &&& all_on_bus(BotsView { running: s.running.remove(key), ..s }, lines.remove(key))
            &&& all_on_bus(with_bot(s, channel, chat, bot, now), lines.insert(key, line))
            &&& all_on_bus(
                BotsView {
                    active: s.active.remove_keys(chats_of(keys)),
                    running: s.running.remove_keys(keys),
                },
                lines.remove_keys(keys),
            )
        }),
{
}

/// A chat that no bot serves gets the channel's default bot, where that is
/// configured, and the first bot of the channel's list only where the channel has
/// no default. The bot is started, on the line that was given, and is the chat's
/// from then on.
pub proof fn new_chats_get_the_default_bot(
    config: Config,
    s: BotsView,
    lines: Map<InstanceView, u64>,
    i: int,
    b: int,
    chat: Seq<char>,
    now: u64,
    line: u64,
)
    requires
        0 <= i < config.channels@.len(),
        forall|j: int|
            0 <= j < i ==> (#[trigger] config.channels@[j]).name@ != config.channels@[i].name@,
        0 <= b < config.bots@.len(),
        match config.channels@[i].default_bot {
            Some(d) => config.bots@[b].name@ == d@,
            None => config.channels@[i].bots@.len() > 0 && config.bots@[b].name@
                == config.channels@[i].bots@[0]@,
        },
        !s.active.contains_key((config.channels@[i].name@, chat)),
    ensures
        ({
            let channel = config.channels@[i].name@;
            let bot = match config.channels@[i].default_bot {
                Some(d) => d@,
                None => config.channels@[i].bots@[0]@,
            };
            let key = InstanceView { channel_name: channel, chat_id: chat, bot_name: bot };
            let v = service(config, s, lines, channel, chat, now, line);
            &&& v.bot_name == Some(bot)
            &&& v.start
            &&& v.shutdown is None
            &&& v.replaced == if lines.contains_key(key) {
                Some(lines[key])
            } else {
                None
            }
            &&& v.bots.active == s.active.insert((channel, chat), bot)
            &&& v.bots.running == s.running.insert(key, now)
            &&& v.lines == lines.insert(key, line)
        }),
{
    let c = config.channels@[i];
    channels_are_found_by_name(config.channels@, i, c.name@);
    new_chats_start_with_the_default(c);
    bots_are_found_by_name(config.bots@, config.bots@[b].name@);
    assert(s.active.remove((c.name@, chat)) =~= s.active);
}

/// A bot that is at work in a chat serves it, and counts as just used; no other is
/// started, and nothing else changes.
pub proof fn bots_at_work_are_kept(
    config: Config,
    s: BotsView,
    lines: Map<InstanceView, u64>,
    channel: Seq<char>,
    chat: Seq<char>,
    bot: Seq<char>,
    now: u64,
    line: u64,
)
    requires
        s.active.contains_key((channel, chat)),
        s.active[(channel, chat)] == bot,
        s.running.contains_key(
            InstanceView { channel_name: channel, chat_id: chat, bot_name: bot },
        ),
    ensures
        ({
            let key = InstanceView { channel_name: channel, chat_id: chat, bot_name: bot };
            let v = service(config, s, lines, channel, chat, now, line);
            &&& v.bot_name == Some(bot)
            &&& !v.start
            &&& v.shutdown is None && v.replaced is None
            &&& v.bots.active == s.active
            &&& v.bots.running == s.running.insert(key, now)
            &&& v.lines == lines
        }),
{
}

/// A bot that a chat still has but that is no longer at work is taken off the bus,
/// and told to end on its line, before the chat is given another.
pub proof fn bots_that_are_gone_are_taken_off(
    config: Config,
    s: BotsView,
    lines: Map<InstanceView, u64>,
    channel: Seq<char>,
    chat: Seq<char>,
    bot: Seq<char>,
    now: u64,
    line: u64,
)
    requires
        s.active.contains_key((channel, chat)),
        s.active[(channel, chat)] == bot,
        !s.running.contains_key(
            InstanceView { channel_name: channel, chat_id: chat, bot_name: bot },
        ),
    ensures
        ({
            let key = InstanceView { channel_name: channel, chat_id: chat, bot_name: bot };
            let rest = BotsView { active: s.active.remove((channel, chat)), running: s.running };
            let v = service(config, s, lines, channel, chat, now, line);
            let w = service(config, rest, lines.remove(key), channel, chat, now, line);
            &&& v.shutdown == if lines.contains_key(key) {
                Some(lines[key])
            } else {
                None
            }
            &&& v.bot_name == w.bot_name
            &&& v.start == w.start
            &&& v.replaced == w.replaced
            &&& v.bots == w.bots
            &&& v.lines == w.lines
        }),
{
    let rest = s.active.remove((channel, chat));
    assert(rest.remove((channel, chat)) =~= rest);
}

/// A chat is served by no bot just where its channel does not exist, has no bot, or
/// starts with one that does not exist; what was at work elsewhere stays.
pub proof fn chats_that_no_bot_can_serve(
    config: Config,
    s: BotsView,
    lines: Map<InstanceView, u64>,
    i: int,
    channel: Seq<char>,
    chat: Seq<char>,
    now: u64,
    line: u64,
)
    requires
        !s.active.contains_key((channel, chat)),
        (forall|j: int|
            0 <= j < config.channels@.len() ==> (#[trigger] config.channels@[j]).name@ != channel)
            || {
            &&& 0 <= i < config.channels@.len()
            &&& config.channels@[i].name@ == channel
            &&& forall|j: int| 0 <= j < i ==> (#[trigger] config.channels@[j]).name@ != channel
            &&& match config.channels@[i].default_bot {
                Some(d) => forall|b: int|
                    0 <= b < config.bots@.len() ==> (#[trigger] config.bots@[b]).name@ != d@,
                None => config.channels@[i].bots@.len() == 0 || forall|b: int|
                    0 <= b < config.bots@.len() ==> (#[trigger] config.bots@[b]).name@
                        != config.channels@[i].bots@[0]@,
            }
        },
    ensures
        ({
            let v = service(config, s, lines, channel, chat, now, line);
            &&& v.bot_name is None && !v.start && v.shutdown is None && v.replaced is None
            &&& v.bots == s
            &&& v.lines == lines
        }),
{
    channels_are_found_by_name(config.channels@, i, channel);
    assert(s.active.remove((channel, chat)) =~= s.active);
    if !(forall|j: int|
        0 <= j < config.channels@.len() ==> (#[trigger] config.channels@[j]).name@ != channel) {
        let c = config.channels@[i];
        new_chats_start_with_the_default(c);
        if let Some(name) = starting_bot(c) {
            bots_are_found_by_name(config.bots@, name);
        }
    }
}

/// A bot that is taken on is its chat's from then on, and counts as just used;
/// nothing else changes. One that has ended is not at work any more, and its chat
/// has no bot where it had that one, and keeps the one it has where it has
/// another.
pub proof fn bots_come_and_go(
    s: BotsView,
    channel: Seq<char>,
    chat: Seq<char>,
    bot: Seq<char>,
    now: u64,
)
    ensures
        ({
            let key = InstanceView { channel_name: channel, chat_id: chat, bot_name: bot };
            let is_its = s.active.contains_key((channel, chat)) && s.active[(channel, chat)] == bot;
            &&& with_bot(s, channel, chat, bot, now) == (BotsView {
                active: s.active.insert((channel, chat), bot),
                running: s.running.insert(key, now),
            })
            &&& without_bot(s, channel, chat, bot).running == s.running.remove(key)
            &&& is_its ==> without_bot(s, channel, chat, bot).active == s.active.remove(
                (channel, chat),
            )
            &&& !is_its ==> without_bot(s, channel, chat, bot).active == s.active
            &&& is_served(s, channel, chat) <==> s.active.contains_key((channel, chat))
                && s.running.contains_key(
                InstanceView {
                    channel_name: channel,
                    chat_id: chat,
                    bot_name: s.active[(channel, chat)],
                },
            )
        }),
{
}

/// A bot that asks for others is told of those at work in its chat, on whatever
/// channel, with their own names and descriptions.
pub proof fn bots_at_work_are_found(
    config: Config,
    running: Map<InstanceView, u64>,
    key: InstanceView,
    b: int,
    caller: Seq<char>,
)
    requires
        0 <= b < config.bots@.len(),
        config.bots@[b].name@ == key.bot_name,
    ensures
        running.contains_key(key) && key.bot_name != caller ==> at_work(
            config,
            running,
            key.chat_id,
            caller,
            key.bot_name,
        ),
        (forall|k: InstanceView| #[trigger]
            running.contains_key(k) ==> k.chat_id != key.chat_id || k.bot_name != key.bot_name)
            ==> !at_work(config, running, key.chat_id, caller, key.bot_name),
        info_of(config.bots@[b]).name == config.bots@[b].name@,
        info_of(config.bots@[b]).description == match config.bots@[b].description {
            Some(d) => Some(d@),
            None => None,
        },
{
    bots_are_found_by_name(config.bots@, key.bot_name);
}

/// Where nobody else is at work in the chat, the bot is told of all others that the
/// channel offers and that are configured, in the channel's order.
pub proof fn offered_bots_are_listed(
    config: Config,
    names: Seq<Seq<char>>,
    name: Seq<char>,
    b: int,
    caller: Seq<char>,
)
    ensures
        offered_others(config, Seq::empty(), caller).len() == 0,
        name == caller ==> offered_others(config, names.push(name), caller) == offered_others(
            config,
            names,
            caller,
        ),
        (forall|j: int| 0 <= j < config.bots@.len() ==> (#[trigger] config.bots@[j]).name@ != name)
            ==> offered_others(config, names.push(name), caller) == offered_others(
            config,
            names,
            caller,
        ),
        name != caller && 0 <= b < config.bots@.len() && config.bots@[b].name@ == name && (forall|
            j: int,
        | 0 <= j < b ==> (#[trigger] config.bots@[j]).name@ != name) ==> offered_others(
            config,
            names.push(name),
            caller,
        ) == offered_others(config, names, caller).push(
            BotInfoView {
                name,
                description: match config.bots@[b].description {
                    Some(d) => Some(d@),
                    None => None,
                },
            },
        ),
{
    assert(names.push(name).drop_last() == names);
    bots_are_found_by_name(config.bots@, name);
    if 0 <= b < config.bots@.len() && config.bots@[b].name@ == name && (forall|j: int|
        0 <= j < b ==> (#[trigger] config.bots@[j]).name@ != name) {
        the_first_bot_of_a_name_is_taken(config.bots@, b);
    }
}

/// A bot is mentioned on the first channel that offers it, leaving out the one that
/// it is called from as long as another offers it.
pub proof fn mentions_take_the_first_channel(
    channels: Seq<ChannelConfig>,
    i: int,
    bot: Seq<char>,
    here: Seq<char>,
)
    requires
        0 <= i < channels.len(),
        texts(channels[i].bots@).contains(bot),
        channels[i].name@ != here ==> forall|j: int|
            0 <= j < i && (#[trigger] channels[j]).name@ != here ==> !texts(
                channels[j].bots@,
            ).contains(bot),
        channels[i].name@ == here ==> forall|j: int|
            0 <= j < channels.len() && (#[trigger] channels[j]).name@ != here ==> !texts(
                channels[j].bots@,
            ).contains(bot),
    ensures
        mention_channel(channels, bot, here) == Some(channels[i].name@),
{
    lemma_offering(channels, bot);
    lemma_offering_elsewhere(channels, bot, here);
    if channels[i].name@ != here {
        lemma_first_elsewhere(channels, i, bot, here);
    }
}

proof fn lemma_first_elsewhere(
    channels: Seq<ChannelConfig>,
    i: int,
    bot: Seq<char>,
    here: Seq<char>,
)
    requires
        0 <= i < channels.len(),
        texts(channels[i].bots@).contains(bot),
        channels[i].name@ != here,
        forall|j: int|
            0 <= j < i && (#[trigger] channels[j]).name@ != here ==> !texts(
                channels[j].bots@,
            ).contains(bot),
    ensures
        offering_elsewhere(channels, bot, here) == Some(channels[i].name@),
    decreases channels.len(),
{
    if i > 0 {
        let rest = channels.skip(1);
        assert(rest[i - 1] == channels[i]);
        assert(channels[0].name@ != here ==> !texts(channels[0].bots@).contains(bot));
        assert forall|j: int|
            0 <= j < i - 1 && (#[trigger] rest[j]).name@ != here implies !texts(
            rest[j].bots@,
        ).contains(bot) by {
            assert(rest[j] == channels[j + 1]);
        }
        lemma_first_elsewhere(rest, i - 1, bot, here);
    }
}

/// An error says which channel is missing, or why a mention was not sent.
pub proof fn orchestrator_errors_say_why(name: String, why: BusError)
    ensures
        OrchestratorError::ChannelNotFound(name).text() == "Channel not found: "@ + name@,
        OrchestratorError::MentionFailed(why).text() == "Failed to send mention: "@
            + bus_error_text(why@),
{
}

/// What is answered when the bot of a chat is asked for is what comes of asking,
/// in all its parts.
pub proof fn answers_are_those_of_the_service(
    v: ServiceView,
    r: Served,
    bots: BotsView,
    lines: Map<InstanceView, u64>,
)
    requires
        is_service(v, r, bots, lines),
    ensures
        bots == v.bots && lines == v.lines,
        v.bot_name is None ==> r.bot_name is None,
        v.bot_name matches Some(name) ==> r.bot_name is Some && r.bot_name->0@ == name,
        r.start <==> v.start,
        r.shutdown == v.shutdown,
        r.replaced == v.replaced,
{
}

/// No bot is told of one that is not configured. Nothing that happens to the bots
/// changes the configuration or the port.
pub proof fn only_configured_bots_are_told_of(
    config: Config,
    running: Map<InstanceView, u64>,
    chat: Seq<char>,
    caller: Seq<char>,
    name: Seq<char>,
    a: Orchestrator,
    b: Orchestrator,
)
    requires
        forall|i: int| 0 <= i < config.bots@.len() ==> (#[trigger] config.bots@[i]).name@ != name,
    ensures
        !at_work(config, running, chat, caller, name),
        a.same_setup(&b) ==> a.config() == b.config() && a.port() == b.port(),
{
    bots_are_found_by_name(config.bots@, name);
}

/// A chat that is asked for the first time gets the channel's default bot, which is
/// to be started and takes events on the line that was given.
pub proof fn first_requests_get_the_default_bot(
    o: &mut Orchestrator,
    bus: &mut MessageBus,
    channel: &str,
    chat: &ChatId,
    now: u64,
    line: u64,
    r: Served,
    i: int,
    b: int,
)
    requires
        call_ensures(Orchestrator::get_or_create, (o, bus, channel, chat, now, line), r),
        0 <= i < old(o).config().channels@.len(),
        old(o).config().channels@[i].name@ == channel@,
        forall|j: int|
            0 <= j < i ==> (#[trigger] old(o).config().channels@[j]).name@ != channel@,
        0 <= b < old(o).config().bots@.len(),
        match old(o).config().channels@[i].default_bot {
            Some(d) => old(o).config().bots@[b].name@ == d@,
            None => old(o).config().channels@[i].bots@.len() > 0 && old(o).config().bots@[b].name@
                == old(o).config().channels@[i].bots@[0]@,
        },
        !old(o).bots().active.contains_key((channel@, chat@)),
    ensures
        ({
            let bot = match old(o).config().channels@[i].default_bot {
                Some(d) => d@,
                None => old(o).config().channels@[i].bots@[0]@,
            };
            let key = InstanceView { channel_name: channel@, chat_id: chat@, bot_name: bot };
            &&& r.bot_name is Some && r.bot_name->0@ == bot
            &&& r.start
            &&& r.shutdown is None
            &&& final(o).bots().active == old(o).bots().active.insert((channel@, chat@), bot)
            &&& final(o).bots().running == old(o).bots().running.insert(key, now)
            &&& final(bus).bots() == old(bus).bots().insert(key, line)
            &&& final(bus).channels() == old(bus).channels()
            &&& final(o).config() == old(o).config()
        }),
{
    new_chats_get_the_default_bot(
        old(o).config(),
        old(o).bots(),
        old(bus).bots(),
        i,
        b,
        chat@,
        now,
        line,
    );
}

/// A chat whose bot is at work keeps it: nothing is started, nothing is told to end,
/// and the bot counts as just used.
pub proof fn later_requests_get_the_same_bot(
    o: &mut Orchestrator,
    bus: &mut MessageBus,
    channel: &str,
    chat: &ChatId,
    now: u64,
    line: u64,
    r: Served,
    bot: Seq<char>,
)
    requires
        call_ensures(Orchestrator::get_or_create, (o, bus, channel, chat, now, line), r),
        old(o).bots().active.contains_key((channel@, chat@)),
        old(o).bots().active[(channel@, chat@)] == bot,
        old(o).bots().running.contains_key(
            (InstanceView { channel_name: channel@, chat_id: chat@, bot_name: bot }),
        ),
    ensures
        r.bot_name is Some && r.bot_name->0@ == bot,
        !r.start,
        r.shutdown is None && r.replaced is None,
        final(o).bots().active == old(o).bots().active,
        final(o).bots().running == old(o).bots().running.insert(
            (InstanceView { channel_name: channel@, chat_id: chat@, bot_name: bot }),
            now,
        ),
        final(bus).bots() == old(bus).bots(),
{
}

/// A bot that has ended leaves nothing behind, and its line is given back so that it
/// can be closed. The chat is left without a bot where this was the one it had, and
/// keeps any other.
pub proof fn ended_bots_give_their_line_back(
    o: &mut Orchestrator,
    bus: &mut MessageBus,
    channel: &str,
    chat: &ChatId,
    bot: &str,
    r: Option<u64>,
)
    requires
        call_ensures(Orchestrator::handle_bot_exit, (o, bus, channel, chat, bot), r),
    ensures
        ({
            let key = InstanceView { channel_name: channel@, chat_id: chat@, bot_name: bot@ };
            let active = old(o).bots().active;
            let place = (channel@, chat@);
            &&& old(bus).bots().contains_key(key) ==> r == Some(old(bus).bots()[key])
            &&& !old(bus).bots().contains_key(key) ==> r is None
            &&& final(bus).bots() == old(bus).bots().remove(key)
            &&& final(o).bots().running == old(o).bots().running.remove(key)
            &&& active.contains_key(place) && active[place] == bot@ ==> final(o).bots().active
                == active.remove(place)
            &&& !(active.contains_key(place) && active[place] == bot@) ==> final(o).bots().active
                == active
            &&& final(o).config() == old(o).config() && final(o).port() == old(o).port()
            &&& final(bus).channels() == old(bus).channels()
        }),
{
}

/// A command that asks for another bot is decided by the bot that the chat has. Where
/// one is at work it is taken off, its line is told to end, and the change waits;
/// where none is, the change is made at once. On a channel that does not exist the
/// command is an error.
pub proof fn bots_at_work_make_room(
    o: &mut Orchestrator,
    bus: &mut MessageBus,
    channel: &str,
    chat: &ChatId,
    args: &Option<String>,
    r: Result<OrchestratorStep, OrchestratorError>,
    bot: Seq<char>,
)
    requires
        call_ensures(Orchestrator::handle_bot_command, (o, bus, channel, chat, args), r),
    ensures
        ({
            let key = InstanceView { channel_name: channel@, chat_id: chat@, bot_name: bot };
            let busy = old(o).bots().active.contains_key((channel@, chat@)) && old(
                o,
            ).bots().active[(channel@, chat@)] == bot && old(o).bots().running.contains_key(key);
            let lone = !old(o).bots().active.contains_key((channel@, chat@));
            &&& final(o).bots().active == old(o).bots().active
            &&& final(bus).channels() == old(bus).channels()
            &&& (forall|j: int|
                0 <= j < old(o).config().channels@.len() ==> (#[trigger] old(
                    o,
                ).config().channels@[j]).name@ != channel@) ==> r is Err
            &&& r is Ok && r->Ok_0 is Switch && busy ==> {
                &&& r->Ok_0->pause
                &&& r->Ok_0->shutdown == if old(bus).bots().contains_key(key) {
                    Some(old(bus).bots()[key])
                } else {
                    None
                }
                &&& final(o).bots().running == old(o).bots().running.remove(key)
                &&& final(bus).bots() == old(bus).bots().remove(key)
            }
            &&& r is Ok && r->Ok_0 is Switch && lone ==> {
                &&& !r->Ok_0->pause
                &&& r->Ok_0->shutdown is None
                &&& final(o).bots() == old(o).bots()
                &&& final(bus).bots() == old(bus).bots()
            }
            &&& r is Err || r->Ok_0 is Say ==> final(o).bots() == old(o).bots() && final(bus).bots()
                == old(bus).bots()
        }),
{
    channels_are_found_by_name(old(o).config().channels@, 0, channel@);
}

/// A change of bots is completed just where the new bot is configured: the chat then
/// has it, on the line that was given. Otherwise the chat is left without a bot, and
/// either way the user is told.
pub proof fn changes_of_bots_are_completed(
    o: &mut Orchestrator,
    bus: &mut MessageBus,
    channel: &str,
    chat: &ChatId,
    target: &str,
    now: u64,
    line: u64,
    r: Switched,
    b: int,
)
    requires
        call_ensures(Orchestrator::complete_switch, (o, bus, channel, chat, target, now, line), r),
    ensures
        ({
            let key = InstanceView { channel_name: channel@, chat_id: chat@, bot_name: target@ };
            let s = old(o).bots();
            let t = final(o).bots();
            let bots = old(o).config().bots@;
            &&& 0 <= b < bots.len() && bots[b].name@ == target@ ==> r.started
            &&& (forall|j: int| 0 <= j < bots.len() ==> (#[trigger] bots[j]).name@ != target@)
                ==> !r.started
            &&& r.started ==> t.active == s.active.insert((channel@, chat@), target@) && t.running
                == s.running.insert(key, now) && final(bus).bots() == old(bus).bots().insert(
                key,
                line,
            )
            &&& r.started && old(bus).bots().contains_key(key) ==> r.replaced == Some(
                old(bus).bots()[key],
            )
            &&& r.started && !old(bus).bots().contains_key(key) ==> r.replaced is None
            &&& !r.started ==> t.active == s.active.remove((channel@, chat@)) && t.running
                == s.running && final(bus).bots() == old(bus).bots() && r.replaced is None
            &&& replies(r.say@).len() == 2
            &&& replies(r.say@)[0] == ReplyView::Text("Switching to bot: "@ + target@ + "..."@)
            &&& r.started ==> replies(r.say@)[1] == ReplyView::Text(
                "Switched to bot: "@ + target@,
            )
            &&& !r.started ==> replies(r.say@)[1] is Error
        }),
{
    bots_are_found_by_name(old(o).config().bots@, target@);
}

/// Cleaning up takes off each bot that was idle for too long, and no other: it tells
/// it once, with its line, and leaves its chat without a bot.
pub proof fn idle_bots_are_taken_off(
    o: &mut Orchestrator,
    bus: &mut MessageBus,
    now: u64,
    timeout: u64,
    r: (Vec<BotInstanceKey>, Vec<Option<u64>>),
    i: int,
    j: int,
    key: InstanceView,
)
    requires
        call_ensures(Orchestrator::cleanup_idle, (o, bus, now, timeout), r),
    ensures
        r.1@.len() == r.0@.len(),
        0 <= i < r.0@.len() ==> {
            let idle_key = r.0@[i]@;
            &&& old(o).bots().running.contains_key(idle_key) && old(o).bots().running[idle_key]
                + timeout < now
            &&& old(bus).bots().contains_key(idle_key) ==> r.1@[i] == Some(
                old(bus).bots()[idle_key],
            )
            &&& !old(bus).bots().contains_key(idle_key) ==> r.1@[i] is None
            &&& i < j < r.0@.len() ==> r.0@[j]@ != idle_key
        },
        old(o).bots().running.contains_key(key) && old(o).bots().running[key] + timeout < now ==> {
            &&& !final(o).bots().running.contains_key(key)
            &&& !final(bus).bots().contains_key(key)
            &&& !final(o).bots().active.contains_key((key.channel_name, key.chat_id))
        },
        !(old(o).bots().running.contains_key(key) && old(o).bots().running[key] + timeout < now)
            ==> {
            &&& final(o).bots().running.contains_key(key) <==> old(o).bots().running.contains_key(
                key,
            )
            &&& final(bus).bots().contains_key(key) <==> old(bus).bots().contains_key(key)
        },
        final(bus).channels() == old(bus).channels(),
{
    let s = old(o).bots();
    let due = idle_set(s.running, now, timeout);
    let keys = key_views(r.0@);
    if 0 <= i < r.0@.len() {
        assert(keys[i] == r.0@[i]@);
        assert(keys.to_set().contains(keys[i]));
        assert(due.contains(keys[i]));
        if i < j < r.0@.len() {
            assert(keys[j] == r.0@[j]@);
        }
    }
    assert(due.contains(key) <==> s.running.contains_key(key) && s.running[key] + timeout < now);
    if due.contains(key) {
        assert(chats_of(due).contains((key.channel_name, key.chat_id)));
    }
}

/// A configured bot that is at work in the chat is told of to every other that asks.
pub proof fn searches_tell_of_bots_at_work(
    o: &Orchestrator,
    channel: &str,
    chat: &ChatId,
    caller: &str,
    r: Vec<BotInfo>,
    key: InstanceView,
)
    requires
        call_ensures(Orchestrator::search_bots, (o, channel, chat, caller), r),
        o.bots().running.contains_key(key),
        key.chat_id == chat@,
        key.bot_name != caller@,
        bot_named(o.config().bots@, key.bot_name) is Some,
    ensures
        exists|k: int| 0 <= k < r@.len() && (#[trigger] r@[k]).name@ == key.bot_name,
{
    assert(at_work(o.config(), o.bots().running, chat@, caller@, key.bot_name));
    assert(exists|name: Seq<char>| #[trigger]
        at_work(o.config(), o.bots().running, chat@, caller@, name));
    let names = info_names(r@);
    assert(names.contains(key.bot_name));
    let k = names.index_of(key.bot_name);
    assert(r@[k].name@ == key.bot_name);
}

/// A mention goes out on the line of the channel that it was made on, with the bot
/// and the words that it names. Where that channel is not there it fails.
pub proof fn mentions_go_out_on_their_channel(
    o: &Orchestrator,
    bus: &MessageBus,
    channel: &str,
    bot: &str,
    message: &str,
    r: Result<(u64, OutgoingMessage), OrchestratorError>,
)
    requires
        call_ensures(Orchestrator::mention_bot, (o, bus, channel, bot, message), r),
    ensures
        r is Ok <==> bus.channels().contains_key(channel@),
        r matches Ok(sent) ==> {
            &&& sent.0 == bus.channels()[channel@]
            &&& sent.1@ == (ReplyView::Mention {
                target_bot: bot@,
                target_channel_name: mention_channel(o.config().channels@, bot@, channel@),
                message: message@,
            })
        },
        r matches Err(e) ==> e.text() == "Failed to send mention: "@ + ("Channel not found: "@
            + channel@),
{
}

/// An orchestrator starts without bots and tells what it was made with, and what
/// bot a chat has.
pub proof fn orchestrators_tell_what_they_have(
    config: Config,
    port: Option<u16>,
    made: Orchestrator,
    o: &Orchestrator,
    told: Option<u16>,
    channel: &str,
    chat: &ChatId,
    bot: Option<String>,
    key: &BotInstanceKey,
    running: bool,
)
    ensures
        call_ensures(Orchestrator::new, (config, port), made) ==> made.config() == config
            && made.port() == port && made.bots().active == Map::<
            (Seq<char>, Seq<char>),
            Seq<char>,
        >::empty() && made.bots().running == Map::<InstanceView, u64>::empty(),
        call_ensures(Orchestrator::mcp_server_port, (o,), told) ==> told == o.port(),
        call_ensures(Orchestrator::current, (o, channel, chat), bot) ==> {
            &&& bot is Some <==> o.bots().active.contains_key((channel@, chat@))
            &&& bot is Some ==> bot->0@ == o.bots().active[(channel@, chat@)]
        },
        call_ensures(Orchestrator::is_running, (o, key), running) ==> running
            == o.bots().running.contains_key(key@),
{
}

/// A command on a channel that exists says, or switches to, what the command comes to
/// for the bot that the chat has; on any other the error names the channel.
pub proof fn bot_commands_are_decided_for_the_chat(
    o: &mut Orchestrator,
    bus: &mut MessageBus,
    channel: &str,
    chat: &ChatId,
    args: &Option<String>,
    r: Result<OrchestratorStep, OrchestratorError>,
    i: int,
    target: Seq<char>,
    said: ReplyView,
)
    requires
        call_ensures(Orchestrator::handle_bot_command, (o, bus, channel, chat, args), r),
    ensures
        ({
            let config = old(o).config();
            let active = old(o).bots().active;
            let current = if active.contains_key((channel@, chat@)) {
                Some(active[(channel@, chat@)])
            } else {
                None
            };
            let found = 0 <= i < config.channels@.len() && config.channels@[i].name@ == channel@
                && forall|j: int|
                0 <= j < i ==> (#[trigger] config.channels@[j]).name@ != channel@;
            let outcome = bot_command(config, config.channels@[i], current, opt_text(*args));
            &&& found && outcome == BotCommandView::Say(said) ==> r is Ok && r->Ok_0 is Say
                && r->Ok_0->Say_0@ == said
            &&& found && outcome == (BotCommandView::Switch { target }) ==> r is Ok
                && r->Ok_0 is Switch && r->Ok_0->target@ == target
            &&& r is Err ==> r->Err_0.text() == "Channel not found: "@ + channel@
        }),
{
    channels_are_found_by_name(old(o).config().channels@, i, channel@);
}

/// Errors are worded as they are.
pub proof fn errors_are_worded(e: &OrchestratorError, name: String, word: String)
    requires
        call_ensures(OrchestratorError::message, (e,), word),
    ensures
        *e == OrchestratorError::ChannelNotFound(name) ==> word@ == "Channel not found: "@ + name@,
        *e is MentionFailed ==> word@ == "Failed to send mention: "@ + bus_error_text(
            e->MentionFailed_0@,
        ),
{
}

}
