//! The message bus: which channels and which bots there are, and how a message
//! finds its way between them.

use crate::channel::{ChatId, ContentView, IncomingMessage};
use crate::split::{cat, cat4, same};
use crate::table::{Key, Table};
use vstd::prelude::*;
use vstd::string::*;

verus! {

/// Names a bot at work: the bot, and the channel and chat that it works in.
#[derive(Debug, Clone, PartialEq, Eq, Hash)]
pub struct BotInstanceKey {
    pub channel_name: String,
    pub chat_id: ChatId,
    pub bot_name: String,
}

/// Names a bot at work, as text.
pub struct InstanceView {
    pub channel_name: Seq<char>,
    pub chat_id: Seq<char>,
    pub bot_name: Seq<char>,
}

impl View for BotInstanceKey {
    type V = InstanceView;

    open spec fn view(&self) -> InstanceView {
        InstanceView {
            channel_name: self.channel_name@,
            chat_id: self.chat_id@,
            bot_name: self.bot_name@,
        }
    }
}

impl Key for BotInstanceKey {
    fn same_key(&self, other: &Self) -> (r: bool) {
        same(self.channel_name.as_str(), other.channel_name.as_str()) && self.chat_id.same_key(
            &other.chat_id,
        ) && same(self.bot_name.as_str(), other.bot_name.as_str())
    }

    fn copy_key(&self) -> (r: Self) {
        BotInstanceKey {
            channel_name: self.channel_name.clone(),
            chat_id: self.chat_id.copy_key(),
            bot_name: self.bot_name.clone(),
        }
    }
}

/// What a bot at work receives.
#[derive(Debug, Clone)]
pub enum BotEvent {
    /// A message of the user.
    Message(IncomingMessage),
    /// It is to clean up and end.
    Shutdown,
}

/// Why a message did not find its way.
#[derive(Debug, Clone)]
pub enum BusError {
    /// No such bot is at work.
    BotNotFound(BotInstanceKey),
    /// There is no such channel.
    ChannelNotFound(String),
    /// The bot takes no more events.
    BotClosed,
    /// The channel takes no more messages.
    ChannelClosed,
}

/// Why a message did not find its way, as text.
pub enum BusErrorView {
    BotNotFound(InstanceView),
    ChannelNotFound(Seq<char>),
    BotClosed,
    ChannelClosed,
}

impl View for BusError {
    type V = BusErrorView;

    open spec fn view(&self) -> BusErrorView {
        match *self {
            BusError::BotNotFound(key) => BusErrorView::BotNotFound(key@),
            BusError::ChannelNotFound(name) => BusErrorView::ChannelNotFound(name@),
            BusError::BotClosed => BusErrorView::BotClosed,
            BusError::ChannelClosed => BusErrorView::ChannelClosed,
        }
    }
}

/// How such an error reads.
pub open spec fn bus_error_text(e: BusErrorView) -> Seq<char> {
    match e {
        BusErrorView::BotNotFound(key) => "Bot instance not found: channel="@ + key.channel_name
            + ", chat="@ + key.chat_id + (", bot="@ + key.bot_name),
        BusErrorView::ChannelNotFound(name) => "Channel not found: "@ + name,
        BusErrorView::BotClosed => "Bot event channel closed"@,
        BusErrorView::ChannelClosed => "Channel outgoing channel closed"@,
    }
}

impl BusError {
    /// The error in words.
    pub fn message(&self) -> (r: String)
        ensures
            r@ == bus_error_text(self@),
    {
        match self {
            BusError::BotNotFound(key) => {
                let head = cat4(
                    "Bot instance not found: channel=",
                    key.channel_name.as_str(),
                    ", chat=",
                    key.chat_id.0.as_str(),
                );
                let tail = cat(", bot=", key.bot_name.as_str());
                cat(head.as_str(), tail.as_str())
            },
            BusError::ChannelNotFound(name) => cat("Channel not found: ", name.as_str()),
            BusError::BotClosed => "Bot event channel closed".to_string(),
            BusError::ChannelClosed => "Channel outgoing channel closed".to_string(),
        }
    }
}

/// The line of a bot.
pub open spec fn line_of(lines: Map<InstanceView, u64>, key: InstanceView) -> Option<u64> {
    if lines.contains_key(key) {
        Some(lines[key])
    } else {
        None
    }
}

/// What came of putting an event on a bot's line.
pub fn bot_delivery(taken: bool) -> (r: Result<(), BusError>)
    ensures
        match r {
            Ok(_) => taken,
            Err(e) => !taken && e@ == BusErrorView::BotClosed,
        },
{
    if taken {
        Ok(())
    } else {
        Err(BusError::BotClosed)
    }
}

/// What came of putting a message on a channel's line.
pub fn channel_delivery(taken: bool) -> (r: Result<(), BusError>)
    ensures
        match r {
            Ok(_) => taken,
            Err(e) => !taken && e@ == BusErrorView::ChannelClosed,
        },
{
    if taken {
        Ok(())
    } else {
        Err(BusError::ChannelClosed)
    }
}

/// The message bus. A line is the number of a queue that messages can be put
/// into: each channel has one for what goes out to its users, and each bot at
/// work one for what comes in to it.
#[derive(Debug)]
pub struct MessageBus {
    outgoing: Table<String, u64>,
    bots: Table<BotInstanceKey, u64>,
}

impl MessageBus {
    /// No channel and no bot occurs twice.
    pub closed spec fn wf(&self) -> bool {
        self.outgoing.wf() && self.bots.wf()
    }

    /// The lines of the channels.
    pub closed spec fn channels(&self) -> Map<Seq<char>, u64> {
        self.outgoing@
    }

    /// The lines of the bots at work.
    pub closed spec fn bots(&self) -> Map<InstanceView, u64> {
        self.bots@
    }

    /// A bus without channels and bots.
    pub fn new() -> (r: Self)
        ensures
            r.wf(),
            r.channels() == Map::<Seq<char>, u64>::empty(),
            r.bots() == Map::<InstanceView, u64>::empty(),
    {
        MessageBus { outgoing: Table::new(), bots: Table::new() }
    }

    /// Gives a channel its line.
    pub fn register_channel(&mut self, channel_name: String, line: u64)
        requires
            old(self).wf(),
        ensures
            final(self).wf(),
            final(self).channels() == old(self).channels().insert(channel_name@, line),
            final(self).bots() == old(self).bots(),
    {
        self.outgoing.insert(channel_name, line);
    }

    /// Gives a bot its line; the line that it had before and that is closed now,
    /// if it had one.
    pub fn register_bot(&mut self, key: BotInstanceKey, line: u64) -> (r: Option<u64>)
        requires
            old(self).wf(),
        ensures
            final(self).wf(),
            final(self).channels() == old(self).channels(),
            final(self).bots() == old(self).bots().insert(key@, line),
            r == line_of(old(self).bots(), key@),
    {
        let replaced = match self.bots.get(&key) {
            Some(line) => Some(*line),
            None => None,
        };
        self.bots.insert(key, line);
        replaced
    }

    /// Takes a bot off the bus; the line on which it is to be told to end, if it
    /// was there.
    pub fn unregister_bot(&mut self, key: &BotInstanceKey) -> (r: Option<u64>)
        requires
            old(self).wf(),
        ensures
            final(self).wf(),
            final(self).channels() == old(self).channels(),
            final(self).bots() == old(self).bots().remove(key@),
            r == line_of(old(self).bots(), key@),
    {
        self.bots.remove(key)
    }

    /// The line on which a bot gets a message.
    pub fn dispatch(&self, key: &BotInstanceKey) -> (r: Result<u64, BusError>)
        requires
            self.wf(),
        ensures
            match r {
                Ok(line) => line_of(self.bots(), key@) == Some(line),
                Err(e) => line_of(self.bots(), key@) is None && e@ == BusErrorView::BotNotFound(
                    key@,
                ),
            },
    {
        match self.bots.get(key) {
            Some(line) => Ok(*line),
            None => Err(BusError::BotNotFound(key.copy_key())),
        }
    }

    /// The line on which a channel gets a message for a user.
    pub fn send(&self, channel_name: &str) -> (r: Result<u64, BusError>)
        requires
            self.wf(),
        ensures
            match r {
                Ok(line) => self.channels().contains_key(channel_name@) && line
                    == self.channels()[channel_name@],
                Err(e) => !self.channels().contains_key(channel_name@) && e@
                    == BusErrorView::ChannelNotFound(channel_name@),
            },
    {
        match self.outgoing.get(&channel_name.to_string()) {
            Some(line) => Ok(*line),
            None => Err(BusError::ChannelNotFound(channel_name.to_string())),
        }
    }

    /// Whether a bot is on the bus.
    pub fn has_bot(&self, key: &BotInstanceKey) -> (r: bool)
        requires
            self.wf(),
        ensures
            r == self.bots().contains_key(key@),
    {
        self.bots.contains(key)
    }
}

impl Default for MessageBus {
    fn default() -> (r: Self)
        ensures
            r.wf(),
            r.channels() == Map::<Seq<char>, u64>::empty(),
            r.bots() == Map::<InstanceView, u64>::empty(),
    {
        MessageBus::new()
    }
}

/// A bot that is given a line is reached on it, and one that is taken off the
/// bus is not found any more; neither changes how any other bot is reached.
pub proof fn bots_are_reached_while_registered(
    lines: Map<InstanceView, u64>,
    key: InstanceView,
    other: InstanceView,
    line: u64,
)
    ensures
        line_of(lines.insert(key, line), key) == Some(line),
        line_of(lines.remove(key), key) is None,
        other != key ==> line_of(lines.insert(key, line), other) == line_of(lines, other),
        other != key ==> line_of(lines.remove(key), other) == line_of(lines, other),
{
}

/// What is done with the bots of a bus: one is given a line, one is taken off, or
/// a message goes to one.
pub enum BusAction {
    Register { key: InstanceView, line: u64 },
    Unregister { key: InstanceView },
    Dispatch { key: InstanceView, content: ContentView },
}

/// The lines of the bots after some actions on a bus without bots.
pub open spec fn lines_after(actions: Seq<BusAction>) -> Map<InstanceView, u64>
    decreases actions.len(),
{
    if actions.len() == 0 {
        Map::empty()
    } else {
        let before = lines_after(actions.drop_last());
        match actions.last() {
            BusAction::Register { key, line } => before.insert(key, line),
            BusAction::Unregister { key } => before.remove(key),
            BusAction::Dispatch { key, content } => before,
        }
    }
}

/// The line that a bot was given last, unless it was taken off since.
pub open spec fn latest_line(actions: Seq<BusAction>, bot: InstanceView) -> Option<u64>
    decreases actions.len(),
{
    if actions.len() == 0 {
        None
    } else {
        let before = latest_line(actions.drop_last(), bot);
        match actions.last() {
            BusAction::Register { key, line } => if key == bot {
                Some(line)
            } else {
                before
            },
            BusAction::Unregister { key } => if key == bot {
                None
            } else {
                before
            },
            BusAction::Dispatch { key, content } => before,
        }
    }
}

/// The messages that were put on a line, in the order in which they were.
pub open spec fn messages_on(actions: Seq<BusAction>, line: u64) -> Seq<ContentView>
    decreases actions.len(),
{
    if actions.len() == 0 {
        Seq::empty()
    } else {
        let front = actions.drop_last();
        let before = messages_on(front, line);
        match actions.last() {
            BusAction::Dispatch { key, content } => if line_of(lines_after(front), key) == Some(
                line,
            ) {
                before.push(content)
            } else {
                before
            },
            _ => before,
        }
    }
}

/// Whether every line that a bot is given is new.
pub open spec fn lines_are_new(actions: Seq<BusAction>) -> bool {
    forall|i: int, j: int|
        #![trigger actions[i], actions[j]]
        0 <= i < j < actions.len() ==> match (actions[i], actions[j]) {
            (
                BusAction::Register { key: _, line: a },
                BusAction::Register { key: _, line: b },
            ) => a != b,
            _ => true,
        }
}

/// A line that a bot has was given to it.
proof fn lemma_lines_are_given(actions: Seq<BusAction>, bot: InstanceView) -> (i: int)
    requires
        lines_after(actions).contains_key(bot),
    ensures
        0 <= i < actions.len(),
        actions[i] == (BusAction::Register { key: bot, line: lines_after(actions)[bot] }),
    decreases actions.len(),
{
    if actions.last() == (BusAction::Register { key: bot, line: lines_after(actions)[bot] }) {
        actions.len() - 1
    } else {
        let front = actions.drop_last();
        assert(lines_after(front).contains_key(bot) && lines_after(front)[bot] == lines_after(
            actions,
        )[bot]);
        let i = lemma_lines_are_given(front, bot);
        assert(actions[i] == front[i]);
        i
    }
}

/// A message reaches the line that its bot was given last, and no other, behind
/// all that were put there before; one for a bot that was given none, or was
/// taken off since, reaches no line and is answered with an error that names the
/// bot. Either way the bots keep their lines, and no two have the same.
pub proof fn messages_reach_the_latest_line(
    actions: Seq<BusAction>,
    key: InstanceView,
    content: ContentView,
    line: u64,
    other: InstanceView,
)
    requires
        lines_are_new(actions),
    ensures
        line_of(lines_after(actions), key) == latest_line(actions, key),
        ({
            let after = actions.push(BusAction::Dispatch { key, content });
            &&& lines_after(after) == lines_after(actions)
            &&& messages_on(after, line) == if latest_line(actions, key) == Some(line) {
                messages_on(actions, line).push(content)
            } else {
                messages_on(actions, line)
            }
        }),
        latest_line(actions, key) is Some && other != key ==> latest_line(actions, other)
            != latest_line(actions, key),
        bus_error_text(BusErrorView::BotNotFound(key)) == "Bot instance not found: channel="@
            + key.channel_name + ", chat="@ + key.chat_id + (", bot="@ + key.bot_name),
{
    lemma_latest_line(actions, key);
    lemma_latest_line(actions, other);
    let after = actions.push(BusAction::Dispatch { key, content });
    assert(after.drop_last() == actions);
    let lines = lines_after(actions);
    if other != key && lines.contains_key(key) && lines.contains_key(other) {
        let i = lemma_lines_are_given(actions, key);
        let j = lemma_lines_are_given(actions, other);
        assert(actions[i] != actions[j]);
        if i < j {
            assert(lines[key] != lines[other]);
        } else {
            assert(lines[other] != lines[key]);
        }
    }
}

proof fn lemma_latest_line(actions: Seq<BusAction>, bot: InstanceView)
    ensures
        line_of(lines_after(actions), bot) == latest_line(actions, bot),
    decreases actions.len(),
{
    if actions.len() > 0 {
        lemma_latest_line(actions.drop_last(), bot);
    }
}

/// A bus error says what was not found, or what takes no more.
pub proof fn bus_errors_say_what_is_missing(key: InstanceView, name: Seq<char>)
    ensures
        bus_error_text(BusErrorView::BotNotFound(key)) == "Bot instance not found: channel="@
            + key.channel_name + ", chat="@ + key.chat_id + (", bot="@ + key.bot_name),
        bus_error_text(BusErrorView::ChannelNotFound(name)) == "Channel not found: "@ + name,
        bus_error_text(BusErrorView::BotClosed) == "Bot event channel closed"@,
        bus_error_text(BusErrorView::ChannelClosed) == "Channel outgoing channel closed"@,
{
}

/// A bot that was entered is reached on its line and on no other, and the line
/// whose place it takes is given back. Entering a bot changes no other's line, and
/// no channel's.
pub proof fn entered_bots_are_reached(
    bus: &mut MessageBus,
    key: BotInstanceKey,
    line: u64,
    replaced: Option<u64>,
    after: &MessageBus,
    other: &BotInstanceKey,
    r: Result<u64, BusError>,
    there: bool,
)
    requires
        call_ensures(MessageBus::register_bot, (bus, key, line), replaced),
        *after == *final(bus),
        call_ensures(MessageBus::dispatch, (after, other), r),
        call_ensures(MessageBus::has_bot, (after, other), there),
    ensures
        other@ == key@ ==> r == Ok::<u64, BusError>(line) && there,
        other@ != key@ && old(bus).bots().contains_key(other@) ==> r == Ok::<u64, BusError>(
            old(bus).bots()[other@],
        ) && there,
        other@ != key@ && !old(bus).bots().contains_key(other@) ==> !there && r is Err && r->Err_0@
            == BusErrorView::BotNotFound(other@),
        replaced is Some <==> old(bus).bots().contains_key(key@),
        replaced matches Some(l) ==> l == old(bus).bots()[key@],
        final(bus).channels() == old(bus).channels(),
{
}

/// A bot that was taken off is no longer reached, and its line is given back. All
/// other bots are reached as before.
pub proof fn taken_off_bots_are_not_reached(
    bus: &mut MessageBus,
    key: &BotInstanceKey,
    line: Option<u64>,
    after: &MessageBus,
    other: &BotInstanceKey,
    r: Result<u64, BusError>,
)
    requires
        call_ensures(MessageBus::unregister_bot, (bus, key), line),
        *after == *final(bus),
        call_ensures(MessageBus::dispatch, (after, other), r),
    ensures
        other@ == key@ ==> r is Err,
        other@ != key@ ==> (r is Ok <==> old(bus).bots().contains_key(other@)),
        other@ != key@ && r is Ok ==> r->Ok_0 == old(bus).bots()[other@],
        line is Some <==> old(bus).bots().contains_key(key@),
        line matches Some(l) ==> l == old(bus).bots()[key@],
        final(bus).channels() == old(bus).channels(),
{
}

/// Messages to a channel go out on the line that it was entered with, and entering
/// a channel changes no bot's line.
pub proof fn entered_channels_are_reached(
    bus: &mut MessageBus,
    name: String,
    line: u64,
    after: &MessageBus,
    other: &str,
    r: Result<u64, BusError>,
)
    requires
        call_ensures(MessageBus::register_channel, (bus, name, line), ()),
        *after == *final(bus),
        call_ensures(MessageBus::send, (after, other), r),
    ensures
        other@ == name@ ==> r == Ok::<u64, BusError>(line),
        other@ != name@ && old(bus).channels().contains_key(other@) ==> r == Ok::<u64, BusError>(
            old(bus).channels()[other@],
        ),
        other@ != name@ && !old(bus).channels().contains_key(other@) ==> r is Err && r->Err_0@
            == BusErrorView::ChannelNotFound(other@),
        final(bus).bots() == old(bus).bots(),
{
}

/// What is handed over and not taken is an error that says which end was closed.
pub proof fn closed_lines_are_errors(taken: bool, r: Result<(), BusError>)
    ensures
        call_ensures(bot_delivery, (taken,), r) ==> (r is Ok <==> taken) && (!taken ==> r->Err_0@
            is BotClosed),
        call_ensures(channel_delivery, (taken,), r) ==> (r is Ok <==> taken) && (!taken
            ==> r->Err_0@ is ChannelClosed),
{
}

/// What is missing on the bus is named in words.
pub proof fn errors_are_worded(e: &BusError, key: BotInstanceKey, name: String, word: String)
    requires
        call_ensures(BusError::message, (e,), word),
    ensures
        *e == BusError::BotNotFound(key) ==> word@ == "Bot instance not found: channel="@
            + key.channel_name@ + ", chat="@ + key.chat_id@ + (", bot="@ + key.bot_name@),
        *e == BusError::ChannelNotFound(name) ==> word@ == "Channel not found: "@ + name@,
        *e is BotClosed ==> word@ == "Bot event channel closed"@,
        *e is ChannelClosed ==> word@ == "Channel outgoing channel closed"@,
{
}

}
