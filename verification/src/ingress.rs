//! The way in: which session a user's message goes to, and which sessions
//! there are.

use crate::acp_client::stream::replies;
use crate::bot_command::{
    bot_command, decide_bot_command, report_switch, switch_replies, BotCommand, BotCommandView,
};
use crate::channel::{ChatId, ContentView, OutgoingMessage, ReplyView};
use crate::clock::{longer_than, passed, SECOND};
use crate::config::{
    bot_named, bots_are_found_by_name, channel_named, channels_are_found_by_name,
    new_chats_start_with_the_default, starting_bot, Config,
};
use crate::message::{IngressContent, IngressMessage};
use crate::message_bus::{line_of, BotInstanceKey, InstanceView};
use crate::split::{opt_text, same};
use crate::table::{Key, Table};
use vstd::prelude::*;
use vstd::string::*;

verus! {

/// Names a chat of a channel.
#[derive(Debug, Clone, PartialEq, Eq, Hash)]
pub struct ChatKey {
    pub channel_name: String,
    pub chat_id: ChatId,
}

impl View for ChatKey {
    type V = (Seq<char>, Seq<char>);

    open spec fn view(&self) -> (Seq<char>, Seq<char>) {
        (self.channel_name@, self.chat_id@)
    }
}

impl Key for ChatKey {
    fn same_key(&self, other: &Self) -> (r: bool) {
        same(self.channel_name.as_str(), other.channel_name.as_str()) && self.chat_id.same_key(
            &other.chat_id,
        )
    }

    fn copy_key(&self) -> (r: Self) {
        ChatKey { channel_name: self.channel_name.clone(), chat_id: self.chat_id.copy_key() }
    }
}

/// A chat of a channel.
pub fn chat_key(channel_name: &str, chat_id: &ChatId) -> (r: ChatKey)
    ensures
        r@ == (channel_name@, chat_id@),
{
    ChatKey { channel_name: channel_name.to_string(), chat_id: chat_id.copy_key() }
}

/// A bot in a chat of a channel.
pub fn instance_key(channel_name: &str, chat_id: &ChatId, bot_name: &str) -> (r: BotInstanceKey)
    ensures
        r@ == instance(channel_name@, chat_id@, bot_name@),
{
    BotInstanceKey {
        channel_name: channel_name.to_string(),
        chat_id: chat_id.copy_key(),
        bot_name: bot_name.to_string(),
    }
}

/// A bot in a chat of a channel.
pub open spec fn instance(channel: Seq<char>, chat: Seq<char>, bot: Seq<char>) -> InstanceView {
    InstanceView { channel_name: channel, chat_id: chat, bot_name: bot }
}

/// The chat that a bot works in.
pub open spec fn chat_of(key: InstanceView) -> (Seq<char>, Seq<char>) {
    (key.channel_name, key.chat_id)
}

/// The sessions: which bot each chat has, when each session was last used, and
/// the line on which each takes messages.
#[verifier::ext_equal]
pub struct SessionsView {
    pub active: Map<(Seq<char>, Seq<char>), Seq<char>>,
    pub running: Map<InstanceView, u64>,
    pub lines: Map<InstanceView, u64>,
}

/// The sessions, with one more, which its chat now has.
pub open spec fn with_new_session(
    s: SessionsView,
    channel: Seq<char>,
    chat: Seq<char>,
    bot: Seq<char>,
    now: u64,
    line: u64,
) -> SessionsView {
    SessionsView {
        active: s.active.insert((channel, chat), bot),
        running: s.running.insert(instance(channel, chat, bot), now),
        lines: s.lines.insert(instance(channel, chat, bot), line),
    }
}

/// The sessions, without one that has ended. Its chat has no bot then.
pub open spec fn without_session(s: SessionsView, key: InstanceView) -> SessionsView {
    SessionsView {
        active: s.active.remove(chat_of(key)),
        running: s.running.remove(key),
        lines: s.lines.remove(key),
    }
}

/// The bot that a new session of a channel gets, if there can be one: the one
/// that the channel starts with, where it is configured.
pub open spec fn bot_for(config: Config, channel: Seq<char>) -> Option<Seq<char>> {
    match channel_named(config.channels@, channel) {
        Some(c) => match starting_bot(c) {
            Some(name) => if bot_named(config.bots@, name) is Some {
                Some(name)
            } else {
                None
            },
            None => None,
        },
        None => None,
    }
}

/// Where a message goes.
#[derive(Debug, Clone)]
pub enum Route {
    /// To the session on this line.
    Deliver { line: u64 },
    /// To a new session with this bot, which is to be started on this line. Where
    /// it takes the place of another session, that one's line is closed.
    Start { bot_name: String, line: u64, replaced: Option<u64> },
    /// Nowhere: there is no session, and none can be made.
    Refuse(OutgoingMessage),
    /// Nowhere: the session takes no messages.
    Lost,
    /// It is a `/bot` command.
    Command { args: Option<String> },
}

/// Where a message goes, as text.
pub enum RouteView {
    Deliver { line: u64 },
    Start { bot_name: Seq<char>, line: u64, replaced: Option<u64> },
    Refuse(ReplyView),
    Lost,
    Command { args: Option<Seq<char>> },
}

impl View for Route {
    type V = RouteView;

    open spec fn view(&self) -> RouteView {
        match *self {
            Route::Deliver { line } => RouteView::Deliver { line },
            Route::Start { bot_name, line, replaced } => RouteView::Start {
                bot_name: bot_name@,
                line,
                replaced,
            },
            Route::Refuse(m) => RouteView::Refuse(m@),
            Route::Lost => RouteView::Lost,
            Route::Command { args } => RouteView::Command { args: opt_text(args) },
        }
    }
}

/// Where a message goes that is no `/bot` command, and what it does to the
/// sessions.
pub open spec fn routed(
    config: Config,
    s: SessionsView,
    channel: Seq<char>,
    chat: Seq<char>,
    now: u64,
    line: u64,
) -> (SessionsView, RouteView) {
    if s.active.contains_key((channel, chat)) {
        let key = instance(channel, chat, s.active[(channel, chat)]);
        (
            SessionsView {
                running: if s.running.contains_key(key) {
                    s.running.insert(key, now)
                } else {
                    s.running
                },
                ..s
            },
            if s.lines.contains_key(key) {
                RouteView::Deliver { line: s.lines[key] }
            } else {
                RouteView::Lost
            },
        )
    } else {
        match bot_for(config, channel) {
            Some(bot) => (
                with_new_session(s, channel, chat, bot, now, line),
                RouteView::Start {
                    bot_name: bot,
                    line,
                    replaced: line_of(s.lines, instance(channel, chat, bot)),
                },
            ),
            None => (s, RouteView::Refuse(ReplyView::Error("Failed to create session"@))),
        }
    }
}

/// Whether a session has been idle for too long.
pub open spec fn idle(running: Map<InstanceView, u64>, key: InstanceView, now: u64, timeout: u64) -> bool {
    running.contains_key(key) && longer_than(running[key], now, timeout)
}

/// The sessions that have been idle for too long.
pub open spec fn idle_set(running: Map<InstanceView, u64>, now: u64, timeout: u64) -> Set<InstanceView> {
    Set::new(|key: InstanceView| idle(running, key, now, timeout))
}

/// The chats of some bots.
pub open spec fn chats_of(keys: Set<InstanceView>) -> Set<(Seq<char>, Seq<char>)> {
    keys.map(|k: InstanceView| chat_of(k))
}

/// The keys of some bots at work.
pub open spec fn key_views(v: Seq<BotInstanceKey>) -> Seq<InstanceView> {
    v.map_values(|k: BotInstanceKey| k@)
}

/// The bots that have been idle for too long, each once.
pub fn find_idle(running: &Table<BotInstanceKey, u64>, now: u64, timeout: u64) -> (r: Vec<
    BotInstanceKey,
>)
    requires
        running.wf(),
    ensures
        key_views(r@).no_duplicates(),
        key_views(r@).to_set() == idle_set(running@, now, timeout),
{
    let mut r: Vec<BotInstanceKey> = Vec::new();
    let n: usize = running.len();
    let mut i: usize = 0;
    while i < n
        invariant
            i <= n,
            n == running.keys().len(),
            running.wf(),
            key_views(r@).no_duplicates(),
            forall|k: InstanceView| #[trigger]
                key_views(r@).contains(k) <==> running.keys().take(i as int).contains(k) && idle(
                    running@,
                    k,
                    now,
                    timeout,
                ),
        decreases n - i,
    {
        let key = running.key_at(i);
        let last: u64 = *running.value_at(i);
        let ghost before = r@;
        let ghost seen = running.keys().take(i as int);
        let ghost more = running.keys().take(i + 1);
        proof {
            assert(more == seen.push(key@));
            assert forall|k: InstanceView| more.contains(k) <==> seen.contains(k) || k == key@ by {
                if seen.contains(k) {
                    assert(more[seen.index_of(k)] == k);
                }
                assert(more[i as int] == key@);
            }
            assert(!seen.contains(key@));
        }
        if passed(last, now, timeout) {
            let copy = key.copy_key();
            r.push(copy);
            proof {
                assert(key_views(r@) == key_views(before).push(key@));
                assert forall|k: InstanceView| key_views(r@).contains(k) <==> key_views(
                    before,
                ).contains(k) || k == key@ by {
                    if key_views(before).contains(k) {
                        assert(key_views(r@)[key_views(before).index_of(k)] == k);
                    }
                    assert(key_views(r@)[before.len() as int] == key@);
                }
                assert(!key_views(before).contains(key@));
            }
        }
        proof {
            assert(idle(running@, key@, now, timeout) <==> longer_than(last, now, timeout));
            assert forall|k: InstanceView| #[trigger]
                key_views(r@).contains(k) <==> more.contains(k) && idle(running@, k, now, timeout) by {
                assert(key_views(before).contains(k) <==> seen.contains(k) && idle(
                    running@,
                    k,
                    now,
                    timeout,
                ));
                assert(more.contains(k) <==> seen.contains(k) || k == key@);
            }
        }
        i += 1;
    }
    proof {
        running.lemma_keys();
        assert(running.keys().take(n as int) == running.keys());
        assert forall|k: InstanceView| #[trigger]
            key_views(r@).to_set().contains(k) <==> idle_set(running@, now, timeout).contains(k) by {
            assert(key_views(r@).to_set().contains(k) <==> key_views(r@).contains(k));
            if running@.dom().contains(k) {
                assert(running.keys().to_set().contains(k));
            }
        }
        assert(key_views(r@).to_set() =~= idle_set(running@, now, timeout));
    }
    r
}

/// Takes the entries of some keys out of a table.
pub fn remove_each<V: View>(table: &mut Table<BotInstanceKey, V>, keys: &Vec<BotInstanceKey>)
    requires
        old(table).wf(),
    ensures
        final(table).wf(),
        final(table)@ == old(table)@.remove_keys(key_views(keys@).to_set()),
{
    let mut i: usize = 0;
    proof {
        assert(key_views(keys@).take(0).to_set() =~= Set::<InstanceView>::empty());
        assert(table@.remove_keys(Set::<InstanceView>::empty()) =~= table@);
    }
    while i < keys.len()
        invariant
            i <= keys@.len(),
            table.wf(),
            table@ == old(table)@.remove_keys(key_views(keys@).take(i as int).to_set()),
        decreases keys@.len() - i,
    {
        let _removed = table.remove(&keys[i]);
        proof {
            let seen = key_views(keys@).take(i as int);
            let more = key_views(keys@).take(i + 1);
            assert(more == seen.push(keys@[i as int]@));
            assert(more.to_set() =~= seen.to_set().insert(keys@[i as int]@)) by {
                assert forall|k: InstanceView| more.contains(k) <==> seen.contains(k) || k
                    == keys@[i as int]@ by {
                    if seen.contains(k) {
                        assert(more[seen.index_of(k)] == k);
                    }
                    assert(more[i as int] == keys@[i as int]@);
                }
            }
            assert(table@ =~= old(table)@.remove_keys(more.to_set()));
        }
        i += 1;
    }
    proof {
        assert(key_views(keys@).take(keys@.len() as int) == key_views(keys@));
    }
}

/// Takes the chats of some bots out of a table.
pub fn remove_chats(table: &mut Table<ChatKey, String>, keys: &Vec<BotInstanceKey>)
    requires
        old(table).wf(),
    ensures
        final(table).wf(),
        final(table)@ == old(table)@.remove_keys(chats_of(key_views(keys@).to_set())),
{
    let mut i: usize = 0;
    proof {
        assert(chats_of(key_views(keys@).take(0).to_set()) =~= Set::<
            (Seq<char>, Seq<char>),
        >::empty());
        assert(table@.remove_keys(Set::<(Seq<char>, Seq<char>)>::empty()) =~= table@);
    }
    while i < keys.len()
        invariant
            i <= keys@.len(),
            table.wf(),
            table@ == old(table)@.remove_keys(chats_of(key_views(keys@).take(i as int).to_set())),
        decreases keys@.len() - i,
    {
        let key = &keys[i];
        let _removed = table.remove(&chat_key(key.channel_name.as_str(), &key.chat_id));
        proof {
            let seen = key_views(keys@).take(i as int);
            let more = key_views(keys@).take(i + 1);
            assert(more == seen.push(key@));
            assert(chats_of(more.to_set()) =~= chats_of(seen.to_set()).insert(chat_of(key@))) by {
                assert forall|k: InstanceView| more.contains(k) <==> seen.contains(k) || k
                    == key@ by {
                    if seen.contains(k) {
                        assert(more[seen.index_of(k)] == k);
                    }
                    assert(more[i as int] == key@);
                }
                assert forall|c: (Seq<char>, Seq<char>)|
                    #[trigger] chats_of(more.to_set()).contains(c) <==> chats_of(
                        seen.to_set(),
                    ).contains(c) || c == chat_of(key@) by {
                    if chats_of(more.to_set()).contains(c) {
                        let k = choose|k: InstanceView| #[trigger]
                            more.to_set().contains(k) && chat_of(k) == c;
                        assert(more.contains(k));
                        if k != key@ {
                            assert(seen.to_set().contains(k));
                        }
                    }
                    if c == chat_of(key@) {
                        assert(more.to_set().contains(key@));
                    }
                    if chats_of(seen.to_set()).contains(c) {
                        let k = choose|k: InstanceView| #[trigger]
                            seen.to_set().contains(k) && chat_of(k) == c;
                        assert(seen.contains(k));
                        assert(more.to_set().contains(k));
                    }
                }
            }
            assert(table@ =~= old(table)@.remove_keys(chats_of(more.to_set())));
        }
        i += 1;
    }
    proof {
        assert(key_views(keys@).take(keys@.len() as int) == key_views(keys@));
    }
}

/// The sessions of all chats.
#[derive(Debug)]
pub struct Ingress {
    config: Config,
    active: Table<ChatKey, String>,
    running: Table<BotInstanceKey, u64>,
    lines: Table<BotInstanceKey, u64>,
}

/// What came of a change of bots: what the user reads of it, whether the session
/// is to be started, and the line of the session whose place it takes, which is
/// closed now.
#[derive(Debug)]
pub struct Switched {
    pub say: Vec<OutgoingMessage>,
    pub started: bool,
    pub replaced: Option<u64>,
}

/// How long a session may be idle: half an hour.
pub const IDLE_TIMEOUT: u64 = 1800 * SECOND;

/// How often idle sessions are looked for, in seconds.
pub const CLEANUP_INTERVAL: u64 = 30;

/// What follows a `/bot` command.
#[derive(Debug, Clone)]
pub enum SwitchStep {
    /// Nothing: there is no such channel.
    Ignore,
    /// An answer.
    Say(OutgoingMessage),
    /// A change of bots, after half a second where a session is to be left.
    Switch { target: String, pause: bool },
}

/// What follows a `/bot` command, as text.
pub enum SwitchStepView {
    Ignore,
    Say(ReplyView),
    Switch { target: Seq<char>, pause: bool },
}

impl View for SwitchStep {
    type V = SwitchStepView;

    open spec fn view(&self) -> SwitchStepView {
        match *self {
            SwitchStep::Ignore => SwitchStepView::Ignore,
            SwitchStep::Say(m) => SwitchStepView::Say(m@),
            SwitchStep::Switch { target, pause } => SwitchStepView::Switch {
                target: target@,
                pause,
            },
        }
    }
}

/// The bot that a chat has.
pub open spec fn current_bot(
    active: Map<(Seq<char>, Seq<char>), Seq<char>>,
    channel: Seq<char>,
    chat: Seq<char>,
) -> Option<Seq<char>> {
    if active.contains_key((channel, chat)) {
        Some(active[(channel, chat)])
    } else {
        None
    }
}

/// What follows a `/bot` command in a chat.
pub open spec fn switch_step(
    config: Config,
    active: Map<(Seq<char>, Seq<char>), Seq<char>>,
    channel: Seq<char>,
    chat: Seq<char>,
    args: Option<Seq<char>>,
) -> SwitchStepView {
    match channel_named(config.channels@, channel) {
        Some(c) => match bot_command(config, c, current_bot(active, channel, chat), args) {
            BotCommandView::Say(m) => SwitchStepView::Say(m),
            BotCommandView::Switch { target } => SwitchStepView::Switch {
                target,
                pause: current_bot(active, channel, chat) is Some,
            },
        },
        None => SwitchStepView::Ignore,
    }
}

impl Ingress {
    /// No chat and no session occurs twice.
    pub closed spec fn wf(&self) -> bool {
        self.active.wf() && self.running.wf() && self.lines.wf()
    }

    /// The configuration.
    pub closed spec fn config(&self) -> Config {
        self.config
    }

    /// The sessions.
    pub closed spec fn sessions(&self) -> SessionsView {
        SessionsView { active: self.active@, running: self.running@, lines: self.lines@ }
    }

    /// No sessions yet.
    pub fn new(config: Config) -> (r: Self)
        ensures
            r.wf(),
            r.config() == config,
            r.sessions() == (SessionsView {
                active: Map::empty(),
                running: Map::empty(),
                lines: Map::empty(),
            }),
    {
        Ingress { config, active: Table::new(), running: Table::new(), lines: Table::new() }
    }

    /// The bot that a chat has.
    fn current(&self, channel_name: &str, chat_id: &ChatId) -> (r: Option<String>)
        requires
            self.wf(),
        ensures
            opt_text(r) == current_bot(self.sessions().active, channel_name@, chat_id@),
    {
        match self.active.get(&chat_key(channel_name, chat_id)) {
            Some(name) => Some(name.clone()),
            None => None,
        }
    }

    /// Finds the session for a message. Where the chat has none, the bot that
    /// the channel starts with gets one, on `line`.
    pub fn handle_message(&mut self, msg: &IngressMessage, now: u64, line: u64) -> (r: Route)
        requires
            old(self).wf(),
        ensures
            final(self).wf(),
            final(self).config() == old(self).config(),
            match msg.content@ {
                ContentView::Command { name, args } => name == "bot"@,
                _ => false,
            } ==> r@ == (RouteView::Command { args: msg.content@->args }) && final(self).sessions()
                == old(self).sessions(),
            match msg.content@ {
                ContentView::Command { name, args } => name != "bot"@,
                _ => true,
            } ==> (final(self).sessions(), r@) == routed(
                old(self).config(),
                old(self).sessions(),
                msg.channel_name@,
                msg.chat_id@,
                now,
                line,
            ),
    {
        if let IngressContent::Command { name, args } = &msg.content {
            if same(name.as_str(), "bot") {
                return Route::Command { args: crate::split::copy_opt(args) };
            }
        }
        match self.current(msg.channel_name.as_str(), &msg.chat_id) {
            Some(bot_name) => {
                let key = instance_key(msg.channel_name.as_str(), &msg.chat_id, bot_name.as_str());
                if self.running.contains(&key) {
                    self.running.insert(key.copy_key(), now);
                }
                match self.lines.get(&key) {
                    Some(line) => Route::Deliver { line: *line },
                    None => Route::Lost,
                }
            },
            None => match self.get_or_create_session(
                msg.channel_name.as_str(),
                &msg.chat_id,
                now,
                line,
            ) {
                Some((bot_name, replaced)) => Route::Start { bot_name, line, replaced },
                None => Route::Refuse(
                    OutgoingMessage::error("Failed to create session".to_string()),
                ),
            },
        }
    }

    /// Makes a session with the bot that the channel starts with.
    fn get_or_create_session(
        &mut self,
        channel_name: &str,
        chat_id: &ChatId,
        now: u64,
        line: u64,
    ) -> (r: Option<(String, Option<u64>)>)
        requires
            old(self).wf(),
        ensures
            final(self).wf(),
            final(self).config() == old(self).config(),
            match r {
                Some((bot, replaced)) => bot_for(old(self).config(), channel_name@) == Some(bot@)
                    && replaced == line_of(
                    old(self).sessions().lines,
                    instance(channel_name@, chat_id@, bot@),
                ),
                None => bot_for(old(self).config(), channel_name@) is None,
            },
            final(self).sessions() == match bot_for(old(self).config(), channel_name@) {
                Some(bot) => with_new_session(
                    old(self).sessions(),
                    channel_name@,
                    chat_id@,
                    bot,
                    now,
                    line,
                ),
                None => old(self).sessions(),
            },
    {
        let bot_name = match self.config.get_channel(channel_name) {
            Some(channel) => match channel.starting_bot() {
                Some(name) => name,
                None => {
                    return None;
                },
            },
            None => {
                return None;
            },
        };
        match self.spawn_session(channel_name, chat_id, bot_name.as_str(), now, line) {
            Ok(replaced) => Some((bot_name, replaced)),
            Err(_) => None,
        }
    }

    /// Makes a session with a bot, if it is configured; the line of the session
    /// whose place it takes.
    fn spawn_session(
        &mut self,
        channel_name: &str,
        chat_id: &ChatId,
        bot_name: &str,
        now: u64,
        line: u64,
    ) -> (r: Result<Option<u64>, ()>)
        requires
            old(self).wf(),
        ensures
            final(self).wf(),
            final(self).config() == old(self).config(),
            match r {
                Ok(replaced) => {
                    &&& bot_named(old(self).config().bots@, bot_name@) is Some
                    &&& replaced == line_of(
                        old(self).sessions().lines,
                        instance(channel_name@, chat_id@, bot_name@),
                    )
                    &&& final(self).sessions() == with_new_session(
                        old(self).sessions(),
                        channel_name@,
                        chat_id@,
                        bot_name@,
                        now,
                        line,
                    )
                },
                Err(_) => {
                    &&& bot_named(old(self).config().bots@, bot_name@) is None
                    &&& final(self).sessions() == old(self).sessions()
                },
            },
    {
        if self.config.get_bot(bot_name).is_none() {
            return Err(());
        }
        let replaced = match self.lines.get(&instance_key(channel_name, chat_id, bot_name)) {
            Some(line) => Some(*line),
            None => None,
        };
        self.active.insert(chat_key(channel_name, chat_id), bot_name.to_string());
        self.running.insert(instance_key(channel_name, chat_id, bot_name), now);
        self.lines.insert(instance_key(channel_name, chat_id, bot_name), line);
        Ok(replaced)
    }

    /// Takes note that a session has ended; its line, which is closed now, if it
    /// still had one.
    pub fn session_exited(&mut self, channel_name: &str, chat_id: &ChatId, bot_name: &str) -> (r:
        Option<u64>)
        requires
            old(self).wf(),
        ensures
            final(self).wf(),
            final(self).config() == old(self).config(),
            final(self).sessions() == without_session(
                old(self).sessions(),
                instance(channel_name@, chat_id@, bot_name@),
            ),
            r == line_of(
                old(self).sessions().lines,
                instance(channel_name@, chat_id@, bot_name@),
            ),
    {
        let key = instance_key(channel_name, chat_id, bot_name);
        let _session = self.running.remove(&key);
        let _bot = self.active.remove(&chat_key(channel_name, chat_id));
        self.lines.remove(&key)
    }

    /// Takes a `/bot` command. A change of bots that it asks for is made by
    /// `complete_switch`.
    pub fn handle_bot_command(
        &self,
        channel_name: &str,
        chat_id: &ChatId,
        args: &Option<String>,
    ) -> (r: SwitchStep)
        requires
            self.wf(),
        ensures
            r@ == switch_step(
                self.config(),
                self.sessions().active,
                channel_name@,
                chat_id@,
                opt_text(*args),
            ),
    {
        let channel = match self.config.get_channel(channel_name) {
            Some(channel) => channel,
            None => {
                return SwitchStep::Ignore;
            },
        };
        let current = self.current(channel_name, chat_id);
        match decide_bot_command(&self.config, channel, &current, args) {
            BotCommand::Say(m) => SwitchStep::Say(m),
            BotCommand::Switch { target } => SwitchStep::Switch { target, pause: current.is_some() },
        }
    }

    /// Gives a chat a session with another bot, on `line`.
    pub fn complete_switch(
        &mut self,
        channel_name: &str,
        chat_id: &ChatId,
        target: &str,
        now: u64,
        line: u64,
    ) -> (r: Switched)
        requires
            old(self).wf(),
        ensures
            final(self).wf(),
            final(self).config() == old(self).config(),
            r.started == (bot_named(old(self).config().bots@, target@) is Some),
            replies(r.say@) == switch_replies(target@, r.started),
            r.replaced == if r.started {
                line_of(old(self).sessions().lines, instance(channel_name@, chat_id@, target@))
            } else {
                None
            },
            final(self).sessions() == if r.started {
                with_new_session(old(self).sessions(), channel_name@, chat_id@, target@, now, line)
            } else {
                old(self).sessions()
            },
    {
        match self.spawn_session(channel_name, chat_id, target, now, line) {
            Ok(replaced) => Switched { say: report_switch(target, true), started: true, replaced },
            Err(_) => Switched { say: report_switch(target, false), started: false, replaced: None },
        }
    }

    /// Ends the sessions that have been idle for longer than `timeout`: those
    /// that were ended, each once, and their lines, which are closed now.
    pub fn cleanup_idle(&mut self, now: u64, timeout: u64) -> (r: (
        Vec<BotInstanceKey>,
        Vec<Option<u64>>,
    ))
        requires
            old(self).wf(),
        ensures
            final(self).wf(),
            final(self).config() == old(self).config(),
            key_views(r.0@).no_duplicates(),
            key_views(r.0@).to_set() == idle_set(old(self).sessions().running, now, timeout),
            r.1@.len() == r.0@.len(),
            forall|i: int|
                0 <= i < r.0@.len() ==> #[trigger] r.1@[i] == line_of(
                    old(self).sessions().lines,
                    r.0@[i]@,
                ),
            final(self).sessions() == cleaned(
                old(self).sessions(),
                idle_set(old(self).sessions().running, now, timeout),
            ),
    {
        let expired = find_idle(&self.running, now, timeout);
        let lines = self.lines_of(&expired);
        remove_each(&mut self.running, &expired);
        remove_each(&mut self.lines, &expired);
        remove_chats(&mut self.active, &expired);
        (expired, lines)
    }

    /// The lines of some sessions.
    fn lines_of(&self, keys: &Vec<BotInstanceKey>) -> (r: Vec<Option<u64>>)
        requires
            self.wf(),
        ensures
            r@.len() == keys@.len(),
            forall|i: int|
                0 <= i < keys@.len() ==> #[trigger] r@[i] == line_of(
                    self.sessions().lines,
                    keys@[i]@,
                ),
    {
        let mut r: Vec<Option<u64>> = Vec::new();
        let mut i: usize = 0;
        while i < keys.len()
            invariant
                i <= keys@.len(),
                self.wf(),
                r@.len() == i,
                forall|j: int|
                    0 <= j < i ==> #[trigger] r@[j] == line_of(self.sessions().lines, keys@[j]@),
            decreases keys@.len() - i,
        {
            let line = match self.lines.get(&keys[i]) {
                Some(line) => Some(*line),
                None => None,
            };
            r.push(line);
            i += 1;
        }
        r
    }
}

/// The sessions without some of them, whose chats have no bot then.
pub open spec fn cleaned(s: SessionsView, keys: Set<InstanceView>) -> SessionsView {
    SessionsView {
        active: s.active.remove_keys(chats_of(keys)),
        running: s.running.remove_keys(keys),
        lines: s.lines.remove_keys(keys),
    }
}

// ---------------------------------------------------------------------------
// Laws
// ---------------------------------------------------------------------------

/// A channel of a valid configuration has a bot for new chats.
pub proof fn lemma_bot_for(config: Config, channel: Seq<char>)
    requires
        crate::config::config_error(config.bots@, config.channels@) is None,
        channel_named(config.channels@, channel) is Some,
    ensures
        bot_for(config, channel) is Some,
{
    crate::config::lemma_channel_named(config.channels@, channel);
    let c = channel_named(config.channels@, channel)->0;
    let i = choose|i: int|
        0 <= i < config.channels@.len() && #[trigger] config.channels@[i] == c;
    crate::config::valid_channels_have_their_bots(config.bots@, config.channels@, i);
}

/// Whether every chat that has a bot has a session with it that takes messages.
pub open spec fn consistent(s: SessionsView) -> bool {
    forall|c: (Seq<char>, Seq<char>)| #[trigger]
        s.active.contains_key(c) ==> s.running.contains_key(instance(c.0, c.1, s.active[c]))
            && s.lines.contains_key(instance(c.0, c.1, s.active[c]))
}

/// Every chat that has a bot can talk to it, whatever happens: messages, changes
/// of bots, ends of sessions and cleaning up all keep it so.
pub proof fn sessions_stay_consistent(
    config: Config,
    s: SessionsView,
    channel: Seq<char>,
    chat: Seq<char>,
    bot: Seq<char>,
    keys: Set<InstanceView>,
    now: u64,
    line: u64,
)
    requires
        consistent(s),
    ensures
        consistent(routed(config, s, channel, chat, now, line).0),
        consistent(with_new_session(s, channel, chat, bot, now, line)),
        consistent(without_session(s, instance(channel, chat, bot))),
        consistent(cleaned(s, keys)),
{
    let t = cleaned(s, keys);
    assert forall|c: (Seq<char>, Seq<char>)| #[trigger] t.active.contains_key(c) implies
        t.running.contains_key(instance(c.0, c.1, t.active[c])) && t.lines.contains_key(
        instance(c.0, c.1, t.active[c]),
    ) by {
        assert(s.active.contains_key(c));
        let key = instance(c.0, c.1, s.active[c]);
        if keys.contains(key) {
            assert(chat_of(key) == c);
            assert(chats_of(keys).contains(c));
        }
    }
    let u = without_session(s, instance(channel, chat, bot));
    assert forall|c: (Seq<char>, Seq<char>)| #[trigger] u.active.contains_key(c) implies
        u.running.contains_key(instance(c.0, c.1, u.active[c])) && u.lines.contains_key(
        instance(c.0, c.1, u.active[c]),
    ) by {
        assert(s.active.contains_key(c));
        assert(c != (channel, chat));
    }
    let w = with_new_session(s, channel, chat, bot, now, line);
    assert forall|c: (Seq<char>, Seq<char>)| #[trigger] w.active.contains_key(c) implies
        w.running.contains_key(instance(c.0, c.1, w.active[c])) && w.lines.contains_key(
        instance(c.0, c.1, w.active[c]),
    ) by {
        if c != (channel, chat) {
            assert(s.active.contains_key(c));
        }
    }
    let v = routed(config, s, channel, chat, now, line).0;
    assert forall|c: (Seq<char>, Seq<char>)| #[trigger] v.active.contains_key(c) implies
        v.running.contains_key(instance(c.0, c.1, v.active[c])) && v.lines.contains_key(
        instance(c.0, c.1, v.active[c]),
    ) by {
        if c != (channel, chat) {
            assert(s.active.contains_key(c));
        }
    }
}

/// No message is lost: on a channel of a valid configuration every message finds
/// a session, an old one or a new one.
pub proof fn no_message_is_lost(
    config: Config,
    s: SessionsView,
    channel: Seq<char>,
    chat: Seq<char>,
    now: u64,
    line: u64,
)
    requires
        consistent(s),
        crate::config::config_error(config.bots@, config.channels@) is None,
        channel_named(config.channels@, channel) is Some,
    ensures
        ({
            let (_, route) = routed(config, s, channel, chat, now, line);
            route is Deliver || route is Start
        }),
{
    lemma_bot_for(config, channel);
}

/// A chat stays with its session: after a message has found one, the next goes
/// to the same.
pub proof fn chats_stay_with_their_session(
    config: Config,
    s: SessionsView,
    channel: Seq<char>,
    chat: Seq<char>,
    now: u64,
    line: u64,
    later: u64,
    other_line: u64,
)
    ensures
        ({
            let (t, first) = routed(config, s, channel, chat, now, line);
            let (_, second) = routed(config, t, channel, chat, later, other_line);
            &&& first matches RouteView::Start { bot_name, line: l, replaced } ==> second
                == (RouteView::Deliver { line: l })
            &&& first matches RouteView::Deliver { line: l } ==> second == (RouteView::Deliver {
                line: l,
            })
        }),
{
}

/// Each chat has its own sessions: a message of one chat changes nothing for any
/// other.
pub proof fn chats_do_not_share_sessions(
    config: Config,
    s: SessionsView,
    channel: Seq<char>,
    chat: Seq<char>,
    now: u64,
    line: u64,
    key: InstanceView,
)
    requires
        chat_of(key) != (channel, chat),
    ensures
        ({
            let (t, _) = routed(config, s, channel, chat, now, line);
            &&& current_bot(t.active, key.channel_name, key.chat_id) == current_bot(
                s.active,
                key.channel_name,
                key.chat_id,
            )
            &&& t.running.contains_key(key) == s.running.contains_key(key)
            &&& s.running.contains_key(key) ==> t.running[key] == s.running[key]
            &&& t.lines.contains_key(key) == s.lines.contains_key(key)
            &&& s.lines.contains_key(key) ==> t.lines[key] == s.lines[key]
        }),
{
}

/// After a change of bots the chat's messages go to the new bot's session.
pub proof fn switched_chats_talk_to_the_new_bot(
    config: Config,
    s: SessionsView,
    channel: Seq<char>,
    chat: Seq<char>,
    target: Seq<char>,
    now: u64,
    line: u64,
    later: u64,
    other_line: u64,
)
    ensures
        ({
            let t = with_new_session(s, channel, chat, target, now, line);
            &&& current_bot(t.active, channel, chat) == Some(target)
            &&& routed(config, t, channel, chat, later, other_line).1 == (RouteView::Deliver {
                line,
            })
        }),
{
}

/// Cleaning up ends the sessions that have been idle for too long, and no others.
pub proof fn only_idle_sessions_are_cleaned_up(
    s: SessionsView,
    now: u64,
    timeout: u64,
    key: InstanceView,
)
    ensures
        ({
            let t = cleaned(s, idle_set(s.running, now, timeout));
            t.running.contains_key(key) <==> s.running.contains_key(key) && s.running[key] + timeout
                >= now
        }),
        ({
            let t = cleaned(s, idle_set(s.running, now, timeout));
            t.running.contains_key(key) ==> t.running[key] == s.running[key] && (
            s.lines.contains_key(key) ==> t.lines.contains_key(key) && t.lines[key] == s.lines[key])
        }),
{
}

/// The first message of a chat starts a session with the channel's default bot,
/// where that is configured, and with the first bot of the channel's list only
/// where the channel has no default. The session is the chat's from then on, takes
/// messages on the line that was given, and counts as just used.
pub proof fn new_chats_talk_to_the_default_bot(
    config: Config,
    s: SessionsView,
    i: int,
    b: int,
    chat: Seq<char>,
    now: u64,
    line: u64,
)
    requires
        0 <= i < config.channels@.len(),
        forall|j: int|
            0 <= j < i ==> (#[trigger] config.channels@[j]).name@ != config.channels@[i].name@,
        0 <= b < config.bots@.len(),
        match config.channels@[i].default_bot {
            Some(d) => config.bots@[b].name@ == d@,
            None => config.channels@[i].bots@.len() > 0 && config.bots@[b].name@
                == config.channels@[i].bots@[0]@,
        },
        !s.active.contains_key((config.channels@[i].name@, chat)),
    ensures
        ({
            let channel = config.channels@[i].name@;
            let bot = match config.channels@[i].default_bot {
                Some(d) => d@,
                None => config.channels@[i].bots@[0]@,
            };
            let key = InstanceView { channel_name: channel, chat_id: chat, bot_name: bot };
            let (t, route) = routed(config, s, channel, chat, now, line);
            &&& route matches RouteView::Start { bot_name, line: l, replaced }
            &&& bot_name == bot
            &&& l == line
            &&& replaced == if s.lines.contains_key(key) {
                Some(s.lines[key])
            } else {
                None
            }
            &&& t.active == s.active.insert((channel, chat), bot)
            &&& t.running == s.running.insert(key, now)
            &&& t.lines == s.lines.insert(key, line)
        }),
{
    let c = config.channels@[i];
    channels_are_found_by_name(config.channels@, i, c.name@);
    new_chats_start_with_the_default(c);
    bots_are_found_by_name(config.bots@, config.bots@[b].name@);
}

/// A chat without a session gets none, and its user is told so, just where the
/// channel does not exist, has no bot, or starts with one that does not exist.
/// Nothing changes then.
pub proof fn chats_without_a_bot_are_refused(
    config: Config,
    s: SessionsView,
    i: int,
    channel: Seq<char>,
    chat: Seq<char>,
    now: u64,
    line: u64,
)
    requires
        !s.active.contains_key((channel, chat)),
        (forall|j: int|
            0 <= j < config.channels@.len() ==> (#[trigger] config.channels@[j]).name@ != channel)
            || {
            &&& 0 <= i < config.channels@.len()
            &&& config.channels@[i].name@ == channel
            &&& forall|j: int| 0 <= j < i ==> (#[trigger] config.channels@[j]).name@ != channel
            &&& match config.channels@[i].default_bot {
                Some(d) => forall|b: int|
                    0 <= b < config.bots@.len() ==> (#[trigger] config.bots@[b]).name@ != d@,
                None => config.channels@[i].bots@.len() == 0 || forall|b: int|
                    0 <= b < config.bots@.len() ==> (#[trigger] config.bots@[b]).name@
                        != config.channels@[i].bots@[0]@,
            }
        },
    ensures
        routed(config, s, channel, chat, now, line) == (
            s,
            RouteView::Refuse(ReplyView::Error("Failed to create session"@)),
        ),
{
    channels_are_found_by_name(config.channels@, i, channel);
    if !(forall|j: int|
        0 <= j < config.channels@.len() ==> (#[trigger] config.channels@[j]).name@ != channel) {
        let c = config.channels@[i];
        new_chats_start_with_the_default(c);
        if let Some(name) = starting_bot(c) {
            bots_are_found_by_name(config.bots@, name);
        }
    }
}

/// A message of a chat that has a session goes to the line of that session, and
/// makes it count as just used; it changes nothing else. Where the session takes
/// no messages it is lost.
pub proof fn messages_go_to_the_session_of_their_chat(
    config: Config,
    s: SessionsView,
    channel: Seq<char>,
    chat: Seq<char>,
    bot: Seq<char>,
    now: u64,
    line: u64,
)
    requires
        s.active.contains_key((channel, chat)),
        s.active[(channel, chat)] == bot,
    ensures
        ({
            let key = InstanceView { channel_name: channel, chat_id: chat, bot_name: bot };
            let (t, route) = routed(config, s, channel, chat, now, line);
            &&& s.lines.contains_key(key) ==> route == (RouteView::Deliver { line: s.lines[key] })
            &&& !s.lines.contains_key(key) ==> route == RouteView::Lost
            &&& t.active == s.active
            &&& t.lines == s.lines
            &&& s.running.contains_key(key) ==> t.running == s.running.insert(key, now)
            &&& !s.running.contains_key(key) ==> t.running == s.running
        }),
{
}

/// A change of bots makes a session with the new bot, on the line that was given,
/// which the chat has from then on and which counts as just used; nothing else
/// changes.
pub proof fn switches_make_a_session(
    s: SessionsView,
    channel: Seq<char>,
    chat: Seq<char>,
    bot: Seq<char>,
    now: u64,
    line: u64,
)
    ensures
        ({
            let key = InstanceView { channel_name: channel, chat_id: chat, bot_name: bot };
            with_new_session(s, channel, chat, bot, now, line) == (SessionsView {
                active: s.active.insert((channel, chat), bot),
                running: s.running.insert(key, now),
                lines: s.lines.insert(key, line),
            })
        }),
{
}

/// A session that has ended takes no messages, is not at work, and its chat has no
/// bot; nothing changes for other sessions and other chats.
pub proof fn ended_sessions_are_forgotten(
    s: SessionsView,
    channel: Seq<char>,
    chat: Seq<char>,
    bot: Seq<char>,
)
    ensures
        ({
            let key = InstanceView { channel_name: channel, chat_id: chat, bot_name: bot };
            without_session(s, instance(channel, chat, bot)) == (SessionsView {
                active: s.active.remove((channel, chat)),
                running: s.running.remove(key),
                lines: s.lines.remove(key),
            })
        }),
{
}

/// A session is idle for too long once it was last used more than the limit ago,
/// and for half an hour where nothing else is said. Cleaning up takes away the
/// line of each such session, and the bot of its chat, and leaves all other chats
/// their bots.
pub proof fn idle_sessions_leave_their_chats(
    s: SessionsView,
    now: u64,
    timeout: u64,
    key: InstanceView,
    channel: Seq<char>,
    chat: Seq<char>,
)
    ensures
        IDLE_TIMEOUT == 30 * 60 * 1_000_000_000,
        CLEANUP_INTERVAL == 30,
        idle_set(s.running, now, timeout).contains(key) <==> s.running.contains_key(key)
            && s.running[key] + timeout < now,
        ({
            let t = cleaned(s, idle_set(s.running, now, timeout));
            &&& s.running.contains_key(key) && s.running[key] + timeout < now
                ==> !t.running.contains_key(key) && !t.lines.contains_key(key)
                && !t.active.contains_key((key.channel_name, key.chat_id))
            &&& (forall|k: InstanceView| #[trigger]
                s.running.contains_key(k) && k.channel_name == channel && k.chat_id == chat
                    ==> s.running[k] + timeout >= now) ==> (t.active.contains_key((channel, chat))
                <==> s.active.contains_key((channel, chat))) && (s.active.contains_key(
                (channel, chat),
            ) ==> t.active[(channel, chat)] == s.active[(channel, chat)])
        }),
{
    let due = idle_set(s.running, now, timeout);
    if due.contains(key) {
        assert(chat_of(key) == (key.channel_name, key.chat_id));
        assert(chats_of(due).contains(chat_of(key)));
    }
    if chats_of(due).contains((channel, chat)) {
        let k = choose|k: InstanceView| #[trigger] due.contains(k) && chat_of(k) == (channel, chat);
        assert(s.running.contains_key(k));
    }
}

/// `/bot` is answered by the bot that the chat has: it is the one that is marked
/// and that need not be changed to. A change waits for a session only where the
/// chat has one, and a channel that does not exist has no answer.
pub proof fn bot_commands_know_the_chat(
    config: Config,
    active: Map<(Seq<char>, Seq<char>), Seq<char>>,
    i: int,
    channel: Seq<char>,
    chat: Seq<char>,
    args: Option<Seq<char>>,
)
    ensures
        0 <= i < config.channels@.len() && config.channels@[i].name@ == channel && (forall|j: int|
            0 <= j < i ==> (#[trigger] config.channels@[j]).name@ != channel) ==> {
            let current = if active.contains_key((channel, chat)) {
                Some(active[(channel, chat)])
            } else {
                None
            };
            switch_step(config, active, channel, chat, args) == match bot_command(
                config,
                config.channels@[i],
                current,
                args,
            ) {
                BotCommandView::Say(m) => SwitchStepView::Say(m),
                BotCommandView::Switch { target } => SwitchStepView::Switch {
                    target,
                    pause: active.contains_key((channel, chat)),
                },
            }
        },
        (forall|j: int|
            0 <= j < config.channels@.len() ==> (#[trigger] config.channels@[j]).name@ != channel)
            ==> switch_step(config, active, channel, chat, args) is Ignore,
{
    channels_are_found_by_name(config.channels@, i, channel);
}

/// Where a message goes, and what a change of bots comes to, is taken by the bots
/// and lines that it names and the words that it says.
pub proof fn routes_are_taken_by_what_they_name(
    name: String,
    line: u64,
    replaced: Option<u64>,
    pause: bool,
    message: OutgoingMessage,
    args: Option<String>,
)
    ensures
        (Route::Deliver { line })@ == (RouteView::Deliver { line }),
        (Route::Start { bot_name: name, line, replaced })@ == (RouteView::Start {
            bot_name: name@,
            line,
            replaced,
        }),
        Route::Refuse(message)@ == RouteView::Refuse(message@),
        (Route::Command { args })@ == (RouteView::Command { args: opt_text(args) }),
        Route::Lost@ == RouteView::Lost,
        SwitchStep::Ignore@ == SwitchStepView::Ignore,
        SwitchStep::Say(message)@ == SwitchStepView::Say(message@),
        (SwitchStep::Switch { target: name, pause })@ == (SwitchStepView::Switch {
            target: name@,
            pause,
        }),
{
}

/// The first message of a chat starts a session with the channel's default bot, be
/// it text or any command but the one that changes bots.
pub proof fn first_messages_reach_the_default_bot(
    ingress: &mut Ingress,
    msg: &IngressMessage,
    now: u64,
    line: u64,
    r: Route,
    i: int,
    b: int,
)
    requires
        call_ensures(Ingress::handle_message, (ingress, msg, now, line), r),
        msg.content@ is Command ==> msg.content@->name != "bot"@,
        0 <= i < old(ingress).config().channels@.len(),
        old(ingress).config().channels@[i].name@ == msg.channel_name@,
        forall|j: int|
            0 <= j < i ==> (#[trigger] old(ingress).config().channels@[j]).name@
                != msg.channel_name@,
        0 <= b < old(ingress).config().bots@.len(),
        match old(ingress).config().channels@[i].default_bot {
            Some(d) => old(ingress).config().bots@[b].name@ == d@,
            None => old(ingress).config().channels@[i].bots@.len() > 0 && old(
                ingress,
            ).config().bots@[b].name@ == old(ingress).config().channels@[i].bots@[0]@,
        },
        !old(ingress).sessions().active.contains_key((msg.channel_name@, msg.chat_id@)),
    ensures
        ({
            let bot = match old(ingress).config().channels@[i].default_bot {
                Some(d) => d@,
                None => old(ingress).config().channels@[i].bots@[0]@,
            };
            &&& r@ matches RouteView::Start { bot_name, line: l, replaced }
            &&& bot_name == bot
            &&& l == line
            &&& final(ingress).sessions().active == old(ingress).sessions().active.insert(
                (msg.channel_name@, msg.chat_id@),
                bot,
            )
        }),
{
    new_chats_talk_to_the_default_bot(
        old(ingress).config(),
        old(ingress).sessions(),
        i,
        b,
        msg.chat_id@,
        now,
        line,
    );
}

/// The command that changes bots is handed on with what belongs to it, and changes
/// nothing by itself. Nothing that comes in changes the configuration.
pub proof fn bot_commands_are_handed_on(
    ingress: &mut Ingress,
    msg: &IngressMessage,
    now: u64,
    line: u64,
    r: Route,
    args: Option<Seq<char>>,
)
    requires
        call_ensures(Ingress::handle_message, (ingress, msg, now, line), r),
    ensures
        final(ingress).config() == old(ingress).config(),
        msg.content@ == (ContentView::Command { name: "bot"@, args }) ==> r@ == (
        RouteView::Command { args }) && final(ingress).sessions() == old(ingress).sessions(),
        !(msg.content@ is Command) ==> !(r@ is Command),
{
}

/// A session that has ended leaves nothing behind, and its line is given back so
/// that it can be closed.
pub proof fn ended_sessions_give_their_line_back(
    ingress: &mut Ingress,
    channel: &str,
    chat: &ChatId,
    bot: &str,
    r: Option<u64>,
)
    requires
        call_ensures(Ingress::session_exited, (ingress, channel, chat, bot), r),
    ensures
        ({
            let key = InstanceView { channel_name: channel@, chat_id: chat@, bot_name: bot@ };
            let s = old(ingress).sessions();
            let t = final(ingress).sessions();
            &&& s.lines.contains_key(key) ==> r == Some(s.lines[key])
            &&& !s.lines.contains_key(key) ==> r is None
            &&& t.active == s.active.remove((channel@, chat@))
            &&& t.running == s.running.remove(key)
            &&& t.lines == s.lines.remove(key)
            &&& final(ingress).config() == old(ingress).config()
        }),
{
}

/// A change of bots is completed just where the new bot is configured: the chat then
/// has it, on the line that was given. Otherwise nothing changes, and either way the
/// user is told.
pub proof fn changes_of_bots_are_completed(
    ingress: &mut Ingress,
    channel: &str,
    chat: &ChatId,
    target: &str,
    now: u64,
    line: u64,
    r: Switched,
    b: int,
)
    requires
        call_ensures(Ingress::complete_switch, (ingress, channel, chat, target, now, line), r),
    ensures
        ({
            let key = InstanceView { channel_name: channel@, chat_id: chat@, bot_name: target@ };
            let s = old(ingress).sessions();
            let t = final(ingress).sessions();
            let bots = old(ingress).config().bots@;
            &&& 0 <= b < bots.len() && bots[b].name@ == target@ ==> r.started
            &&& (forall|j: int| 0 <= j < bots.len() ==> (#[trigger] bots[j]).name@ != target@)
                ==> !r.started
            &&& r.started ==> t.active == s.active.insert((channel@, chat@), target@)
                && t.running == s.running.insert(key, now) && t.lines == s.lines.insert(key, line)
            &&& r.started && s.lines.contains_key(key) ==> r.replaced == Some(s.lines[key])
            &&& r.started && !s.lines.contains_key(key) ==> r.replaced is None
            &&& !r.started ==> t == s && r.replaced is None
            &&& replies(r.say@).len() == 2
            &&& replies(r.say@)[0] == ReplyView::Text("Switching to bot: "@ + target@ + "..."@)
            &&& r.started ==> replies(r.say@)[1] == ReplyView::Text(
                "Switched to bot: "@ + target@,
            )
            &&& !r.started ==> replies(r.say@)[1] is Error
        }),
{
    bots_are_found_by_name(old(ingress).config().bots@, target@);
}

/// Cleaning up tells each session that was idle for too long once, with its line,
/// and no other.
pub proof fn idle_sessions_are_told_with_their_lines(
    ingress: &mut Ingress,
    now: u64,
    timeout: u64,
    r: (Vec<BotInstanceKey>, Vec<Option<u64>>),
    i: int,
    j: int,
)
    requires
        call_ensures(Ingress::cleanup_idle, (ingress, now, timeout), r),
        0 <= i < r.0@.len(),
    ensures
        ({
            let s = old(ingress).sessions();
            let key = r.0@[i]@;
            &&& r.1@.len() == r.0@.len()
            &&& s.running.contains_key(key) && s.running[key] + timeout < now
            &&& s.lines.contains_key(key) ==> r.1@[i] == Some(s.lines[key])
            &&& !s.lines.contains_key(key) ==> r.1@[i] is None
            &&& i < j < r.0@.len() ==> r.0@[j]@ != key
            &&& !final(ingress).sessions().running.contains_key(key)
            &&& !final(ingress).sessions().lines.contains_key(key)
        }),
{
    let s = old(ingress).sessions();
    let keys = key_views(r.0@);
    let key = r.0@[i]@;
    assert(keys[i] == key);
    assert(keys.to_set().contains(key));
    idle_sessions_leave_their_chats(s, now, timeout, key, key.channel_name, key.chat_id);
    if i < j < r.0@.len() {
        assert(keys[j] == r.0@[j]@);
    }
}

/// A command is decided for the bot that the chat has, and on a channel that does not
/// exist nothing comes of it.
pub proof fn bot_commands_are_decided_for_the_chat(
    ingress: &Ingress,
    channel: &str,
    chat: &ChatId,
    args: &Option<String>,
    r: SwitchStep,
    i: int,
    target: Seq<char>,
    said: ReplyView,
)
    requires
        call_ensures(Ingress::handle_bot_command, (ingress, channel, chat, args), r),
    ensures
        ({
            let config = ingress.config();
            let active = ingress.sessions().active;
            let current = if active.contains_key((channel@, chat@)) {
                Some(active[(channel@, chat@)])
            } else {
                None
            };
            let found = 0 <= i < config.channels@.len() && config.channels@[i].name@ == channel@
                && forall|j: int|
                0 <= j < i ==> (#[trigger] config.channels@[j]).name@ != channel@;
            let outcome = bot_command(config, config.channels@[i], current, opt_text(*args));
            &&& found && outcome == BotCommandView::Say(said) ==> r@ == SwitchStepView::Say(said)
            &&& found && outcome == (BotCommandView::Switch { target }) ==> r@ == (
            SwitchStepView::Switch { target, pause: current is Some })
            &&& (forall|j: int|
                0 <= j < config.channels@.len() ==> (#[trigger] config.channels@[j]).name@
                    != channel@) ==> r@ is Ignore
        }),
{
    channels_are_found_by_name(ingress.config().channels@, i, channel@);
}

/// A message to a chat that has a session is delivered on the session's line, and the
/// session counts as just used.
pub proof fn later_messages_reach_the_session(
    ingress: &mut Ingress,
    msg: &IngressMessage,
    now: u64,
    line: u64,
    r: Route,
    key: InstanceView,
)
    requires
        call_ensures(Ingress::handle_message, (ingress, msg, now, line), r),
        msg.content@ is Text,
        key.channel_name == msg.channel_name@,
        key.chat_id == msg.chat_id@,
        old(ingress).sessions().active.contains_key((msg.channel_name@, msg.chat_id@)),
        old(ingress).sessions().active[(msg.channel_name@, msg.chat_id@)] == key.bot_name,
        old(ingress).sessions().running.contains_key(key),
        old(ingress).sessions().lines.contains_key(key),
    ensures
        r@ == (RouteView::Deliver { line: old(ingress).sessions().lines[key] }),
        final(ingress).sessions().running == old(ingress).sessions().running.insert(key, now),
        final(ingress).sessions().active == old(ingress).sessions().active,
        final(ingress).sessions().lines == old(ingress).sessions().lines,
{
    assert(key == instance(msg.channel_name@, msg.chat_id@, key.bot_name));
}

}
