//! A session: a conversation in one chat of one channel, with its agent.

use crate::acp_client::state::{opt_server_views, AcpClientState, McpServer, StateView};
use crate::channel::{ChatId, OutgoingMessage, ReplyView};
use crate::config::BotConfig;
use crate::dialog::{dialog_step, settings_of, Dialog, DialogView, Event, EventView, NextView};
use crate::dialog::{PhaseView, Step, StepView};
use crate::message::IngressMessage;
use crate::split::opt_text;
use vstd::prelude::*;
use vstd::string::*;

verus! {

/// What a session is made of.
#[derive(Debug, Clone)]
pub struct AgentSessionConfig {
    pub bot_config: BotConfig,
    pub channel_name: String,
    pub chat_id: ChatId,
}

/// A conversation in one chat of one channel.
#[derive(Debug)]
pub struct AgentSession {
    pub config: AgentSessionConfig,
    pub dialog: Dialog,
}

/// A conversation that has just begun.
pub open spec fn fresh_dialog(config: BotConfig) -> DialogView {
    DialogView {
        settings: settings_of(config),
        instructions: opt_text(config.instructions),
        has_sent_instructions: false,
        phase: PhaseView::Starting { looks: 0 },
    }
}

/// A client that has just been made: it works in the bot's directory, or else
/// in the current one.
pub open spec fn fresh_client(
    config: BotConfig,
    current_dir: Seq<char>,
    mcp_servers: Seq<(Seq<char>, Seq<char>)>,
) -> StateView {
    StateView {
        mcp_servers,
        session_id: None,
        working_dir: match opt_text(config.working_dir) {
            Some(dir) => dir,
            None => current_dir,
        },
        available_models: Seq::empty(),
        active_model: None,
        available_modes: Seq::empty(),
        active_mode: None,
        available_config_options: Seq::empty(),
        show_thinking: config.show_thinking,
        show_auto_approved: config.show_auto_approved,
    }
}

/// Makes the client of a bot.
pub fn new_client(
    config: &BotConfig,
    current_dir: &str,
    mcp_servers: Option<Vec<McpServer>>,
) -> (r: AcpClientState)
    ensures
        r@ == fresh_client(*config, current_dir@, opt_server_views(mcp_servers)),
{
    let working_dir = match &config.working_dir {
        Some(dir) => dir.clone(),
        None => current_dir.to_string(),
    };
    AcpClientState::new(working_dir, config.show_thinking, config.show_auto_approved, mcp_servers)
}

/// What the user reads of an error that ended the client: its text, unless the
/// agent had been connected.
pub fn client_failure(connected: bool, error: String) -> (r: Option<OutgoingMessage>)
    ensures
        match r {
            Some(m) => !connected && m@ == ReplyView::Error(error@),
            None => connected,
        },
{
    if connected {
        None
    } else {
        Some(OutgoingMessage::error(error))
    }
}

/// What the arrival of a message, or the end of all messages, is to a
/// conversation.
pub open spec fn session_event(msg: Option<IngressMessage>, connected: bool) -> EventView {
    match msg {
        Some(m) => EventView::Message { content: m.content@, connected },
        None => EventView::Closed,
    }
}

impl AgentSession {
    /// A session that is to begin, and the client for its agent.
    pub fn new(config: AgentSessionConfig, current_dir: &str) -> (r: (Self, AcpClientState))
        ensures
            r.0.config == config,
            r.0.dialog@ == fresh_dialog(config.bot_config),
            r.1@ == fresh_client(config.bot_config, current_dir@, Seq::empty()),
    {
        let client = new_client(&config.bot_config, current_dir, None);
        let dialog = Dialog::new(&config.bot_config);
        (AgentSession { config, dialog }, client)
    }

    /// The first step.
    pub fn start(&self) -> (r: Step)
        ensures
            r@ == (StepView {
                say: seq![ReplyView::Text("Agent is starting..."@)],
                next: NextView::Look { wait: false },
            }),
    {
        self.dialog.start()
    }

    /// Takes a message from the chat; `None` where no more will come.
    pub fn receive(&mut self, msg: Option<IngressMessage>, connected: bool) -> (r: Step)
        ensures
            final(self).config == old(self).config,
            (final(self).dialog@, r@) == dialog_step(
                old(self).dialog@,
                session_event(msg, connected),
            ),
    {
        match msg {
            Some(m) => self.dialog.step(Event::Message { content: m.content, connected }),
            None => self.dialog.step(Event::Closed),
        }
    }

    /// Goes on with what the last step asked for.
    pub fn resume(&mut self, event: Event) -> (r: Step)
        ensures
            final(self).config == old(self).config,
            (final(self).dialog@, r@) == dialog_step(old(self).dialog@, event@),
    {
        self.dialog.step(event)
    }
}

/// A bot's agent works in the directory that the bot's configuration names, and in
/// the current one only where it names none; what its user is shown is as it says;
/// and nothing is known of a session yet.
pub proof fn clients_are_made_as_configured(
    config: BotConfig,
    current_dir: Seq<char>,
    servers: Seq<(Seq<char>, Seq<char>)>,
)
    ensures
        ({
            let s = fresh_client(config, current_dir, servers);
            &&& config.working_dir matches Some(dir) ==> s.working_dir == dir@
            &&& config.working_dir is None ==> s.working_dir == current_dir
            &&& s.show_thinking == config.show_thinking
            &&& s.show_auto_approved == config.show_auto_approved
            &&& s.mcp_servers == servers
            &&& s.session_id is None && s.active_model is None && s.active_mode is None
            &&& s.available_models.len() == 0 && s.available_modes.len() == 0
            &&& s.available_config_options.len() == 0
        }),
{
}

/// A conversation begins with an agent that is coming up, with the bot's
/// instructions still to be sent.
pub proof fn conversations_begin_at_the_beginning(config: BotConfig)
    ensures
        fresh_dialog(config).phase == (PhaseView::Starting { looks: 0 }),
        !fresh_dialog(config).has_sent_instructions,
        fresh_dialog(config).instructions == match config.instructions {
            Some(text) => Some(text@),
            None => None,
        },
        fresh_dialog(config).settings == settings_of(config),
{
}

/// A message reaches the conversation with what it says; the end of all messages
/// reaches it as that.
pub proof fn messages_reach_the_conversation(msg: IngressMessage, connected: bool)
    ensures
        session_event(Some(msg), connected) == (EventView::Message {
            content: msg.content@,
            connected,
        }),
        session_event(None, connected) is Closed,
{
}

/// The user hears of an agent's failure where it never connected, and first of all
/// that the agent is starting.
pub proof fn failures_to_start_are_told(
    session: &AgentSession,
    connected: bool,
    error: String,
    said: Option<OutgoingMessage>,
    first: Step,
)
    ensures
        call_ensures(client_failure, (connected, error), said) ==> (said is Some <==> !connected)
            && (!connected ==> said->0@ == ReplyView::Error(error@)),
        call_ensures(AgentSession::start, (session,), first) ==> first@.say == seq![
            ReplyView::Text("Agent is starting..."@),
        ] && first@.next == (NextView::Look { wait: false }),
{
}

/// Taking messages and events never changes what a session was made with, and an
/// event is taken by the conversation.
pub proof fn sessions_stay_what_they_were_made(
    session: &mut AgentSession,
    msg: Option<IngressMessage>,
    event: Event,
    connected: bool,
    r: Step,
)
    ensures
        call_ensures(AgentSession::receive, (session, msg, connected), r) ==> final(session).config
            == old(session).config,
        call_ensures(AgentSession::receive, (session, msg, connected), r) && msg is Some ==> (
        final(session).dialog@, r@) == dialog_step(
            old(session).dialog@,
            EventView::Message { content: msg->0.content@, connected },
        ),
        call_ensures(AgentSession::receive, (session, msg, connected), r) && msg is None ==> (
        final(session).dialog@, r@) == dialog_step(old(session).dialog@, EventView::Closed),
        call_ensures(AgentSession::resume, (session, event), r) ==> final(session).config == old(
            session,
        ).config && (final(session).dialog@, r@) == dialog_step(old(session).dialog@, event@),
{
}

/// A client works in the directory that is configured, and else in the present one;
/// a session begins at the beginning.
pub proof fn sessions_begin_as_configured(
    config: &BotConfig,
    dir: &str,
    servers: Option<Vec<McpServer>>,
    client: AcpClientState,
    settings: AgentSessionConfig,
    made: (AgentSession, AcpClientState),
)
    ensures
        call_ensures(new_client, (config, dir, servers), client) ==> {
            &&& config.working_dir is Some ==> client@.working_dir == config.working_dir->0@
            &&& config.working_dir is None ==> client@.working_dir == dir@
            &&& client@.show_thinking == config.show_thinking
            &&& client@.show_auto_approved == config.show_auto_approved
            &&& client@.mcp_servers == opt_server_views(servers)
            &&& client@.session_id is None
        },
        call_ensures(AgentSession::new, (settings, dir), made) ==> {
            &&& made.0.config == settings
            &&& made.0.dialog@.phase == (PhaseView::Starting { looks: 0 })
            &&& !made.0.dialog@.has_sent_instructions
            &&& made.1@.mcp_servers.len() == 0
            &&& settings.bot_config.working_dir is None ==> made.1@.working_dir == dir@
        },
{
}

}
