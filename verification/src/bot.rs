//! A bot: a conversation that can be told to end, and whose agent can reach
//! other bots.

use crate::acp_client::state::{server_views, AcpClientState, McpServer};
use crate::agent_session::{fresh_client, fresh_dialog, new_client};
use crate::channel::{ChatId, ReplyView};
use crate::config::BotConfig;
use crate::dialog::{dialog_step, Dialog, Event, EventView, NextView, Step, StepView};
use crate::message::IngressContent;
use crate::message_bus::BotEvent;
use crate::number::{decimal, to_decimal};
use crate::split::{cat4, cat5};
use vstd::prelude::*;
use vstd::string::*;

verus! {

/// A bot in one chat of one channel.
#[derive(Debug)]
pub struct Bot {
    pub config: BotConfig,
    pub channel_name: String,
    pub chat_id: ChatId,
    pub dialog: Dialog,
}

/// The path under which the MCP server knows a bot: channel, bot and chat.
pub open spec fn mcp_path(channel: Seq<char>, bot: Seq<char>, chat: Seq<char>) -> Seq<char> {
    channel + "/"@ + bot + "/"@ + chat
}

/// Where the agent of a bot finds the MCP server.
pub open spec fn mcp_url(port: nat, channel: Seq<char>, bot: Seq<char>, chat: Seq<char>) -> Seq<
    char,
> {
    "http://localhost:"@ + decimal(port) + "/mcp/"@ + mcp_path(channel, bot, chat)
}

/// The servers that the agent of a bot is told of.
pub open spec fn bot_servers(
    port: Option<u16>,
    channel: Seq<char>,
    bot: Seq<char>,
    chat: Seq<char>,
) -> Seq<(Seq<char>, Seq<char>)> {
    match port {
        Some(p) => seq![("mcp"@, mcp_url(p as nat, channel, bot, chat))],
        None => Seq::empty(),
    }
}

/// What an event on a bot's channel is to its conversation.
pub open spec fn bot_event(event: Option<BotEvent>, connected: bool) -> EventView {
    match event {
        Some(BotEvent::Message(m)) => EventView::Message { content: m@, connected },
        Some(BotEvent::Shutdown) => EventView::Shutdown,
        None => EventView::Closed,
    }
}

impl Bot {
    /// A bot that is to begin, and the client for its agent.
    pub fn new(
        config: BotConfig,
        channel_name: String,
        chat_id: ChatId,
        mcp_server_port: Option<u16>,
        current_dir: &str,
    ) -> (r: (Self, AcpClientState))
        ensures
            r.0.config == config,
            r.0.channel_name == channel_name,
            r.0.chat_id == chat_id,
            r.0.dialog@ == fresh_dialog(config),
            r.1@ == fresh_client(
                config,
                current_dir@,
                bot_servers(mcp_server_port, channel_name@, config.name@, chat_id@),
            ),
    {
        let servers = match mcp_server_port {
            Some(port) => {
                let number = to_decimal(port as u64);
                let path = cat5(
                    channel_name.as_str(),
                    "/",
                    config.name.as_str(),
                    "/",
                    chat_id.0.as_str(),
                );
                let url = cat4("http://localhost:", number.as_str(), "/mcp/", path.as_str());
                let mut v: Vec<McpServer> = Vec::new();
                v.push(McpServer { name: "mcp".to_string(), url });
                assert(server_views(v@) =~= bot_servers(
                    mcp_server_port,
                    channel_name@,
                    config.name@,
                    chat_id@,
                ));
                Some(v)
            },
            None => None,
        };
        let client = new_client(&config, current_dir, servers);
        let dialog = Dialog::new(&config);
        (Bot { config, channel_name, chat_id, dialog }, client)
    }

    /// The first step.
    pub fn start(&self) -> (r: Step)
        ensures
            r@ == (StepView {
                say: seq![ReplyView::Text("Agent is starting..."@)],
                next: NextView::Look { wait: false },
            }),
    {
        self.dialog.start()
    }

    /// Takes what came on the bot's channel; `None` where no more will come.
    pub fn receive(&mut self, event: Option<BotEvent>, connected: bool) -> (r: Step)
        ensures
            final(self).config == old(self).config,
            final(self).channel_name == old(self).channel_name,
            final(self).chat_id == old(self).chat_id,
            (final(self).dialog@, r@) == dialog_step(
                old(self).dialog@,
                bot_event(event, connected),
            ),
    {
        match event {
            Some(BotEvent::Message(m)) => {
                let content = IngressContent::from(m);
                self.dialog.step(Event::Message { content, connected })
            },
            Some(BotEvent::Shutdown) => self.dialog.step(Event::Shutdown),
            None => self.dialog.step(Event::Closed),
        }
    }

    /// Goes on with what the last step asked for.
    pub fn resume(&mut self, event: Event) -> (r: Step)
        ensures
            final(self).config == old(self).config,
            final(self).channel_name == old(self).channel_name,
            final(self).chat_id == old(self).chat_id,
            (final(self).dialog@, r@) == dialog_step(old(self).dialog@, event@),
    {
        self.dialog.step(event)
    }
}

/// A bot's agent is told of the server under the address of that bot in that chat,
/// where there is a server, and of none where there is none.
pub proof fn agents_are_told_their_own_address(
    port: u16,
    channel: Seq<char>,
    bot: Seq<char>,
    chat: Seq<char>,
)
    ensures
        bot_servers(Some(port), channel, bot, chat) == seq![
            (
                "mcp"@,
                "http://localhost:"@ + decimal(port as nat) + "/mcp/"@ + (channel + "/"@ + bot
                    + "/"@ + chat),
            ),
        ],
        bot_servers(None, channel, bot, chat).len() == 0,
{
}

/// What comes on a bot's channel reaches its conversation: a message with what it
/// says, the word to end as that, and the end of all messages as that.
pub proof fn events_reach_the_conversation(
    msg: crate::channel::IncomingMessage,
    connected: bool,
)
    ensures
        bot_event(Some(BotEvent::Message(msg)), connected) == (EventView::Message {
            content: msg@,
            connected,
        }),
        bot_event(Some(BotEvent::Shutdown), connected) is Shutdown,
        bot_event(None, connected) is Closed,
{
}

/// Bots are made for one chat, and taking events changes neither that nor what they
/// were configured with.
pub proof fn bots_stay_with_their_chat(
    bot: &mut Bot,
    taken: Option<BotEvent>,
    event: Event,
    connected: bool,
    r: Step,
)
    ensures
        call_ensures(Bot::receive, (bot, taken, connected), r) || call_ensures(
            Bot::resume,
            (bot, event),
            r,
        ) ==> final(bot).config == old(bot).config && final(bot).channel_name == old(
            bot,
        ).channel_name && final(bot).chat_id == old(bot).chat_id,
        call_ensures(Bot::receive, (bot, taken, connected), r) && taken == Some(BotEvent::Shutdown)
            ==> (final(bot).dialog@, r@) == dialog_step(old(bot).dialog@, EventView::Shutdown),
        call_ensures(Bot::receive, (bot, taken, connected), r) && taken is None ==> (
        final(bot).dialog@, r@) == dialog_step(old(bot).dialog@, EventView::Closed),
        call_ensures(Bot::resume, (bot, event), r) ==> (final(bot).dialog@, r@) == dialog_step(
            old(bot).dialog@,
            event@,
        ),
{
}

/// The first that a bot says is that its agent is starting, and it then looks how
/// the agent is doing.
pub proof fn bots_say_that_they_are_starting(bot: &Bot, first: Step)
    requires
        call_ensures(Bot::start, (bot,), first),
    ensures
        first@.say == seq![ReplyView::Text("Agent is starting..."@)],
        first@.next == (NextView::Look { wait: false }),
{
}

/// A bot is made for its chat, and its agent is offered the server under the bot's own
/// address, where there is one.
pub proof fn bots_are_made_for_their_chat(
    config: BotConfig,
    channel: String,
    chat: ChatId,
    port: Option<u16>,
    dir: &str,
    made: (Bot, AcpClientState),
)
    requires
        call_ensures(Bot::new, (config, channel, chat, port, dir), made),
    ensures
        made.0.config == config && made.0.channel_name == channel && made.0.chat_id == chat,
        made.0.dialog@ == fresh_dialog(config),
        port is None ==> made.1@.mcp_servers.len() == 0,
        port is Some ==> made.1@.mcp_servers == seq![
            (
                "mcp"@,
                "http://localhost:"@ + decimal(port->0 as nat) + "/mcp/"@ + (channel@ + "/"@
                    + config.name@ + "/"@ + chat@),
            ),
        ],
{
}

}
