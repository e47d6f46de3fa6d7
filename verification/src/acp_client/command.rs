//! The commands that the bridge gives to its client, and how the client
//! answers them.

use super::options::{map_config_options, option_views, shown_options, AgentOption, OptionView};
use super::options::{shown_option, SessionConfigOptionState};
use super::output::{command_line, failure_report, rendered, StartupDiagnostics};
use super::state::{
    apply_session_response, server_views, with_session, AcpClientState, McpServer, SessionResponse,
    StateView,
};
use super::stream::{closed_stream, closing, replies, AcpClient};
use crate::channel::{OutgoingMessage, ReplyView};
use crate::clock::{delay_after, next_delay};
use crate::split::{cat, cat4, opt_text, texts};
use crate::text::utf8_lossy;
use vstd::prelude::*;
use vstd::string::*;

verus! {

/// A command to the client.
#[derive(Debug, Clone)]
pub enum AcpCommand {
    /// Start a new session.
    NewSession,
    /// Have the session use a model.
    SetModel { model: String },
    /// Start a new session in another directory.
    ChangeDirectory { path: String },
    /// Say which models there are.
    GetModels,
    /// Put the session into a mode.
    SetMode { mode: String },
    /// Say which modes there are.
    GetModes,
    /// Set an option of the session.
    SetConfigOption { config_id: String, value: String },
    /// Say which options there are.
    GetConfigOptions,
}

/// A command, as text.
pub enum CommandView {
    NewSession,
    SetModel { model: Seq<char> },
    ChangeDirectory { path: Seq<char> },
    GetModels,
    SetMode { mode: Seq<char> },
    GetModes,
    SetConfigOption { config_id: Seq<char>, value: Seq<char> },
    GetConfigOptions,
}

impl View for AcpCommand {
    type V = CommandView;

    open spec fn view(&self) -> CommandView {
        match *self {
            AcpCommand::NewSession => CommandView::NewSession,
            AcpCommand::SetModel { model } => CommandView::SetModel { model: model@ },
            AcpCommand::ChangeDirectory { path } => CommandView::ChangeDirectory { path: path@ },
            AcpCommand::GetModels => CommandView::GetModels,
            AcpCommand::SetMode { mode } => CommandView::SetMode { mode: mode@ },
            AcpCommand::GetModes => CommandView::GetModes,
            AcpCommand::SetConfigOption { config_id, value } => CommandView::SetConfigOption {
                config_id: config_id@,
                value: value@,
            },
            AcpCommand::GetConfigOptions => CommandView::GetConfigOptions,
        }
    }
}

/// What a command came to.
#[derive(Debug, Clone)]
pub enum CommandReply {
    /// A session was started.
    Session(String),
    /// A setting was made.
    Done,
    /// The models or modes, and the one in use.
    Names { available: Vec<String>, active: Option<String> },
    /// The options.
    Options(Vec<SessionConfigOptionState>),
    /// It failed, for this reason.
    Failed(String),
}

/// What a command came to, as text.
pub enum CommandReplyView {
    Session(Seq<char>),
    Done,
    Names { available: Seq<Seq<char>>, active: Option<Seq<char>> },
    Options(Seq<OptionView>),
    Failed(Seq<char>),
}

impl View for CommandReply {
    type V = CommandReplyView;

    open spec fn view(&self) -> CommandReplyView {
        match *self {
            CommandReply::Session(id) => CommandReplyView::Session(id@),
            CommandReply::Done => CommandReplyView::Done,
            CommandReply::Names { available, active } => CommandReplyView::Names {
                available: texts(available@),
                active: opt_text(active),
            },
            CommandReply::Options(options) => CommandReplyView::Options(option_views(options@)),
            CommandReply::Failed(why) => CommandReplyView::Failed(why@),
        }
    }
}

/// A request to the agent.
#[derive(Debug, Clone)]
pub enum AgentRequest {
    NewSession { working_dir: String, mcp_servers: Vec<McpServer> },
    SetModel { session_id: String, model: String },
    SetMode { session_id: String, mode: String },
    SetConfigOption { session_id: String, config_id: String, value: String },
}

/// A request to the agent, as text.
#[verifier::ext_equal]
pub enum RequestView {
    NewSession { working_dir: Seq<char>, mcp_servers: Seq<(Seq<char>, Seq<char>)> },
    SetModel { session_id: Seq<char>, model: Seq<char> },
    SetMode { session_id: Seq<char>, mode: Seq<char> },
    SetConfigOption { session_id: Seq<char>, config_id: Seq<char>, value: Seq<char> },
}

impl View for AgentRequest {
    type V = RequestView;

    open spec fn view(&self) -> RequestView {
        match *self {
            AgentRequest::NewSession { working_dir, mcp_servers } => RequestView::NewSession {
                working_dir: working_dir@,
                mcp_servers: server_views(mcp_servers@),
            },
            AgentRequest::SetModel { session_id, model } => RequestView::SetModel {
                session_id: session_id@,
                model: model@,
            },
            AgentRequest::SetMode { session_id, mode } => RequestView::SetMode {
                session_id: session_id@,
                mode: mode@,
            },
            AgentRequest::SetConfigOption { session_id, config_id, value } =>
                RequestView::SetConfigOption {
                session_id: session_id@,
                config_id: config_id@,
                value: value@,
            },
        }
    }
}

/// What the client does about a command: ask the agent, or answer at once.
#[derive(Debug, Clone)]
pub enum CommandStep {
    Ask(AgentRequest),
    Answer(CommandReply),
}

/// What the client does about a command, as text.
pub enum CommandStepView {
    Ask(RequestView),
    Answer(CommandReplyView),
}

impl View for CommandStep {
    type V = CommandStepView;

    open spec fn view(&self) -> CommandStepView {
        match *self {
            CommandStep::Ask(request) => CommandStepView::Ask(request@),
            CommandStep::Answer(reply) => CommandStepView::Answer(reply@),
        }
    }
}

/// The answer where a command needs a session and there is none.
pub open spec fn no_session() -> CommandStepView {
    CommandStepView::Answer(CommandReplyView::Failed("No active session"@))
}

/// What the client does about a command.
pub open spec fn command_step(s: StateView, cmd: CommandView) -> CommandStepView {
    match cmd {
        CommandView::NewSession => CommandStepView::Ask(
            RequestView::NewSession { working_dir: s.working_dir, mcp_servers: s.mcp_servers },
        ),
        CommandView::ChangeDirectory { path } => CommandStepView::Ask(
            RequestView::NewSession { working_dir: path, mcp_servers: s.mcp_servers },
        ),
        CommandView::SetModel { model } => match s.session_id {
            Some(session_id) => CommandStepView::Ask(RequestView::SetModel { session_id, model }),
            None => no_session(),
        },
        CommandView::SetMode { mode } => match s.session_id {
            Some(session_id) => CommandStepView::Ask(RequestView::SetMode { session_id, mode }),
            None => no_session(),
        },
        CommandView::SetConfigOption { config_id, value } => match s.session_id {
            Some(session_id) => CommandStepView::Ask(
                RequestView::SetConfigOption { session_id, config_id, value },
            ),
            None => no_session(),
        },
        CommandView::GetModels => CommandStepView::Answer(
            CommandReplyView::Names { available: s.available_models, active: s.active_model },
        ),
        CommandView::GetModes => CommandStepView::Answer(
            CommandReplyView::Names { available: s.available_modes, active: s.active_mode },
        ),
        CommandView::GetConfigOptions => CommandStepView::Answer(
            CommandReplyView::Options(s.available_config_options),
        ),
    }
}

/// What a command changes before the agent is asked: a change of directory
/// takes effect at once, whatever the agent says to it.
pub open spec fn command_effect(s: StateView, cmd: CommandView) -> StateView {
    match cmd {
        CommandView::ChangeDirectory { path } => StateView { working_dir: path, ..s },
        _ => s,
    }
}

/// Takes a command: the request that it makes to the agent, or the answer.
pub fn handle_command(state: &mut AcpClientState, cmd: &AcpCommand) -> (r: CommandStep)
    ensures
        r@ == command_step(old(state)@, cmd@),
        final(state)@ == command_effect(old(state)@, cmd@),
{
    match cmd {
        AcpCommand::NewSession => CommandStep::Ask(
            AgentRequest::NewSession {
                working_dir: state.get_working_dir(),
                mcp_servers: state.mcp_servers(),
            },
        ),
        AcpCommand::SetModel { model } => match state.get_session_id() {
            Some(session_id) => CommandStep::Ask(
                AgentRequest::SetModel { session_id, model: model.clone() },
            ),
            None => CommandStep::Answer(CommandReply::Failed("No active session".to_string())),
        },
        AcpCommand::ChangeDirectory { path } => {
            state.set_working_dir(path.clone());
            CommandStep::Ask(
                AgentRequest::NewSession {
                    working_dir: path.clone(),
                    mcp_servers: state.mcp_servers(),
                },
            )
        },
        AcpCommand::GetModels => CommandStep::Answer(
            CommandReply::Names {
                available: state.get_available_models(),
                active: state.get_active_model(),
            },
        ),
        AcpCommand::SetMode { mode } => match state.get_session_id() {
            Some(session_id) => CommandStep::Ask(
                AgentRequest::SetMode { session_id, mode: mode.clone() },
            ),
            None => CommandStep::Answer(CommandReply::Failed("No active session".to_string())),
        },
        AcpCommand::GetModes => CommandStep::Answer(
            CommandReply::Names {
                available: state.get_available_modes(),
                active: state.get_active_mode(),
            },
        ),
        AcpCommand::SetConfigOption { config_id, value } => match state.get_session_id() {
            Some(session_id) => CommandStep::Ask(
                AgentRequest::SetConfigOption {
                    session_id,
                    config_id: config_id.clone(),
                    value: value.clone(),
                },
            ),
            None => CommandStep::Answer(CommandReply::Failed("No active session".to_string())),
        },
        AcpCommand::GetConfigOptions => CommandStep::Answer(
            CommandReply::Options(state.get_available_config_options()),
        ),
    }
}

/// Takes the agent's answer to the request for a session.
pub fn finish_new_session(
    state: &mut AcpClientState,
    result: Result<SessionResponse, String>,
) -> (r: CommandReply)
    ensures
        match result {
            Ok(response) => r@ == CommandReplyView::Session(response.session_id@) && final(state)@
                == with_session(old(state)@, response),
            Err(e) => r@ == CommandReplyView::Failed("Failed to create session: "@ + e@)
                && final(state)@ == old(state)@,
        },
{
    match result {
        Ok(response) => {
            apply_session_response(state, &response);
            CommandReply::Session(response.session_id)
        },
        Err(e) => CommandReply::Failed(cat("Failed to create session: ", e.as_str())),
    }
}

/// Takes the agent's answer to the request for a model.
pub fn finish_set_model(
    state: &mut AcpClientState,
    model: String,
    result: Result<(), String>,
) -> (r: CommandReply)
    ensures
        match result {
            Ok(_) => r@ == CommandReplyView::Done && final(state)@ == (StateView {
                active_model: Some(model@),
                ..old(state)@
            }),
            Err(e) => r@ == CommandReplyView::Failed("Failed to set model: "@ + e@) && final(state)@
                == old(state)@,
        },
{
    match result {
        Ok(_) => {
            state.set_active_model(Some(model));
            CommandReply::Done
        },
        Err(e) => CommandReply::Failed(cat("Failed to set model: ", e.as_str())),
    }
}

/// Takes the agent's answer to the request for a mode.
pub fn finish_set_mode(
    state: &mut AcpClientState,
    mode: String,
    result: Result<(), String>,
) -> (r: CommandReply)
    ensures
        match result {
            Ok(_) => r@ == CommandReplyView::Done && final(state)@ == (StateView {
                active_mode: Some(mode@),
                ..old(state)@
            }),
            Err(e) => r@ == CommandReplyView::Failed("Failed to set mode: "@ + e@) && final(state)@
                == old(state)@,
        },
{
    match result {
        Ok(_) => {
            state.set_active_mode(Some(mode));
            CommandReply::Done
        },
        Err(e) => CommandReply::Failed(cat("Failed to set mode: ", e.as_str())),
    }
}

/// Takes the agent's answer to the request for an option: the options as they
/// are now.
pub fn finish_set_config_option(
    state: &mut AcpClientState,
    config_id: &str,
    result: Result<Vec<AgentOption>, String>,
) -> (r: CommandReply)
    ensures
        match result {
            Ok(options) => r@ == CommandReplyView::Done && final(state)@ == (StateView {
                available_config_options: shown_options(options@),
                ..old(state)@
            }),
            Err(e) => r@ == CommandReplyView::Failed(
                "Failed to set config option '"@ + config_id@ + "': "@ + e@,
            ) && final(state)@ == old(state)@,
        },
{
    match result {
        Ok(options) => {
            state.set_available_config_options(map_config_options(&options));
            CommandReply::Done
        },
        Err(e) => CommandReply::Failed(
            cat4("Failed to set config option '", config_id, "': ", e.as_str()),
        ),
    }
}

/// Takes the first session of a connection, and tells the user that the agent
/// is there.
pub fn start_session(state: &mut AcpClientState, response: &SessionResponse) -> (r: OutgoingMessage)
    ensures
        final(state)@ == with_session(old(state)@, *response),
        r@ == ReplyView::Text("Agent connected and ready!"@),
{
    apply_session_response(state, response);
    state.send_to_user("Agent connected and ready!".to_string())
}

// ---------------------------------------------------------------------------
// Prompts
// ---------------------------------------------------------------------------

/// What becomes of a prompt: it goes to the session, or the user learns that
/// there is none.
pub fn begin_prompt(state: &AcpClientState) -> (r: Result<String, OutgoingMessage>)
    ensures
        match r {
            Ok(session_id) => state@.session_id == Some(session_id@),
            Err(m) => state@.session_id is None && m@ == ReplyView::Error("No active session"@),
        },
{
    match state.get_session_id() {
        Some(session_id) => Ok(session_id),
        None => Err(state.send_error("No active session".to_string())),
    }
}

/// What the user sees when a prompt is over.
pub open spec fn prompt_closing(ending: Seq<ReplyView>, error: Option<Seq<char>>) -> Seq<ReplyView> {
    match error {
        Some(e) => ending.push(ReplyView::Error("Prompt failed: "@ + e)),
        None => ending,
    }
}

/// Ends a prompt: any running stream is closed, and an error is reported.
pub fn finish_prompt(
    client: &mut AcpClient,
    state: &AcpClientState,
    error: &Option<String>,
) -> (r: Vec<OutgoingMessage>)
    ensures
        replies(r@) == prompt_closing(closing(old(client)@), opt_text(*error)),
        final(client)@ == closed_stream(old(client)@),
{
    let mut r = client.end_streaming_if_active();
    if let Some(e) = error {
        let ghost before = r@;
        let word = state.send_error(cat("Prompt failed: ", e.as_str()));
        r.push(word);
        assert(replies(r@) =~= replies(before).push(word@));
    }
    r
}

/// How far a prompt came on its way to the client.
#[derive(Debug, Clone, Copy)]
pub enum Delivery {
    /// There is no connection to an agent.
    NotConnected,
    /// The connection's task is gone.
    Closed,
    /// It was handed over.
    Sent,
}

/// What is said of a prompt that did not reach the client: to the user, and to
/// the caller.
pub fn send_prompt(state: &AcpClientState, delivery: Delivery) -> (r: Result<
    (),
    (OutgoingMessage, String),
>)
    ensures
        match delivery {
            Delivery::Sent => r is Ok,
            Delivery::NotConnected => r matches Err(e) && e.0@ == ReplyView::Error(
                "Agent not connected"@,
            ) && e.1@ == "ACP connection not available"@,
            Delivery::Closed => r matches Err(e) && e.0@ == ReplyView::Error(
                "Failed to send prompt"@,
            ) && e.1@ == "Failed to send prompt to channel"@,
        },
{
    match delivery {
        Delivery::Sent => Ok(()),
        Delivery::NotConnected => Err(
            (
                state.send_error("Agent not connected".to_string()),
                "ACP connection not available".to_string(),
            ),
        ),
        Delivery::Closed => Err(
            (
                state.send_error("Failed to send prompt".to_string()),
                "Failed to send prompt to channel".to_string(),
            ),
        ),
    }
}

/// What a command comes to that may not have reached the client: `sent` says
/// whether it did, and `reply` what the client answered, if it did answer.
pub fn settle_command(sent: bool, reply: Option<CommandReply>) -> (r: CommandReply)
    ensures
        match (sent, reply) {
            (false, _) => r@ == CommandReplyView::Failed("Failed to send command: channel closed"@),
            (true, None) => r@ == CommandReplyView::Failed("Command response channel closed"@),
            (true, Some(reply)) => r == reply,
        },
{
    if !sent {
        return CommandReply::Failed("Failed to send command: channel closed".to_string());
    }
    match reply {
        Some(reply) => reply,
        None => CommandReply::Failed("Command response channel closed".to_string()),
    }
}

// ---------------------------------------------------------------------------
// The agent process
// ---------------------------------------------------------------------------

/// What follows the end of an agent process.
#[derive(Debug)]
pub enum ClientStep {
    /// The session is over.
    Finished,
    /// The agent never got as far as a session, for this reason.
    StartupFailed(String),
    /// Wait so many seconds and start it again; the wait after that comes next.
    Restart { delay: u64, next: u64 },
}

/// Decides what follows the end of an agent process. One that fails before it
/// is connected is given up; one that fails later is started again.
pub fn after_session(
    diagnostics: &StartupDiagnostics,
    connected: bool,
    error: &Option<String>,
    delay: u64,
) -> (r: ClientStep)
    ensures
        match opt_text(*error) {
            None => r == ClientStep::Finished,
            Some(e) => if connected {
                r matches ClientStep::Restart { delay: d, next } && d == delay && next
                    == delay_after(delay as int)
            } else {
                r matches ClientStep::StartupFailed(why) && why@ == failure_report(
                    "initializing the ACP session"@,
                    e,
                    command_line(diagnostics.command@, texts(diagnostics.args@)),
                    rendered(utf8_lossy(diagnostics.stdout.bytes@), diagnostics.stdout.truncated),
                    rendered(utf8_lossy(diagnostics.stderr.bytes@), diagnostics.stderr.truncated),
                )
            },
        },
{
    match error {
        None => ClientStep::Finished,
        Some(e) => if connected {
            ClientStep::Restart { delay, next: next_delay(delay) }
        } else {
            ClientStep::StartupFailed(
                diagnostics.format_failure("initializing the ACP session", e.as_str()),
            )
        },
    }
}

// ---------------------------------------------------------------------------
// Laws
// ---------------------------------------------------------------------------

/// A new session forgets which model and which mode the user had chosen.
pub proof fn new_session_resets_choices(s: StateView, response: SessionResponse)
    ensures
        command_step(with_session(s, response), CommandView::GetModels)
            == CommandStepView::Answer(
            CommandReplyView::Names {
                available: with_session(s, response).available_models,
                active: None,
            },
        ),
        command_step(with_session(s, response), CommandView::GetModes) == CommandStepView::Answer(
            CommandReplyView::Names {
                available: with_session(s, response).available_modes,
                active: None,
            },
        ),
        with_session(s, response).session_id == Some(response.session_id@),
{
}

/// Without a session no setting is sent to the agent; every such command is
/// answered with the same refusal, and changes nothing.
pub proof fn settings_need_a_session(s: StateView, cmd: CommandView)
    requires
        s.session_id is None,
        cmd is SetModel || cmd is SetMode || cmd is SetConfigOption,
    ensures
        command_step(s, cmd) == no_session(),
        command_effect(s, cmd) == s,
{
}

/// Queries are answered from what is known, without asking the agent, and
/// change nothing.
pub proof fn queries_do_not_ask(s: StateView, cmd: CommandView)
    requires
        cmd is GetModels || cmd is GetModes || cmd is GetConfigOptions,
    ensures
        command_step(s, cmd) is Answer,
        command_effect(s, cmd) == s,
{
}

/// After a change of directory every new session starts there.
pub proof fn directory_stays_changed(s: StateView, path: Seq<char>)
    ensures
        command_step(
            command_effect(s, CommandView::ChangeDirectory { path }),
            CommandView::NewSession,
        ) == command_step(s, CommandView::ChangeDirectory { path }),
{
}

/// What an agent offers with a session is what the user is shown: the models, the
/// modes and the options that it names, in its order. What it says nothing of
/// stays as it was, and no choice of the user is carried over.
pub proof fn sessions_bring_what_the_agent_offers(s: StateView, response: SessionResponse)
    ensures
        command_step(with_session(s, response), CommandView::GetModels)
            == CommandStepView::Answer(
            CommandReplyView::Names {
                available: match response.models {
                    Some(v) => Seq::new(v@.len(), |i: int| v@[i]@),
                    None => s.available_models,
                },
                active: None,
            },
        ),
        command_step(with_session(s, response), CommandView::GetModes) == CommandStepView::Answer(
            CommandReplyView::Names {
                available: match response.modes {
                    Some(v) => Seq::new(v@.len(), |i: int| v@[i]@),
                    None => s.available_modes,
                },
                active: None,
            },
        ),
        command_step(with_session(s, response), CommandView::GetConfigOptions)
            == CommandStepView::Answer(
            CommandReplyView::Options(
                match response.config_options {
                    Some(v) => Seq::new(v@.len(), |i: int| shown_option(v@[i])),
                    None => s.available_config_options,
                },
            ),
        ),
{
    if let Some(v) = response.models {
        assert(texts(v@) =~= Seq::new(v@.len(), |i: int| v@[i]@));
    }
    if let Some(v) = response.modes {
        assert(texts(v@) =~= Seq::new(v@.len(), |i: int| v@[i]@));
    }
    if let Some(v) = response.config_options {
        assert(shown_options(v@) =~= Seq::new(v@.len(), |i: int| shown_option(v@[i])));
    }
}

/// A session changes nothing of where the agent works, which servers it is told
/// of, and what its user is shown.
pub proof fn sessions_leave_the_rest_alone(s: StateView, response: SessionResponse)
    ensures
        with_session(s, response).session_id == Some(response.session_id@),
        with_session(s, response).working_dir == s.working_dir,
        with_session(s, response).mcp_servers == s.mcp_servers,
        with_session(s, response).show_thinking == s.show_thinking,
        with_session(s, response).show_auto_approved == s.show_auto_approved,
{
}

/// Queries are answered with what the session offers and what is chosen in it.
pub proof fn queries_tell_what_is_known(s: StateView)
    ensures
        command_step(s, CommandView::GetModels) == CommandStepView::Answer(
            CommandReplyView::Names { available: s.available_models, active: s.active_model },
        ),
        command_step(s, CommandView::GetModes) == CommandStepView::Answer(
            CommandReplyView::Names { available: s.available_modes, active: s.active_mode },
        ),
        command_step(s, CommandView::GetConfigOptions) == CommandStepView::Answer(
            CommandReplyView::Options(s.available_config_options),
        ),
{
}

/// A setting goes to the session that there is, with just what the user named; it
/// changes nothing before the agent has agreed.
pub proof fn settings_go_to_the_session(
    s: StateView,
    session_id: Seq<char>,
    name: Seq<char>,
    value: Seq<char>,
)
    requires
        s.session_id == Some(session_id),
    ensures
        command_step(s, CommandView::SetModel { model: name }) == CommandStepView::Ask(
            RequestView::SetModel { session_id, model: name },
        ),
        command_step(s, CommandView::SetMode { mode: name }) == CommandStepView::Ask(
            RequestView::SetMode { session_id, mode: name },
        ),
        command_step(s, CommandView::SetConfigOption { config_id: name, value })
            == CommandStepView::Ask(
            RequestView::SetConfigOption { session_id, config_id: name, value },
        ),
        command_effect(s, CommandView::SetModel { model: name }) == s,
        command_effect(s, CommandView::SetMode { mode: name }) == s,
        command_effect(s, CommandView::SetConfigOption { config_id: name, value }) == s,
{
}

/// A new session is asked for in the directory that sessions work in, with the
/// servers that the agent is told of; a change of directory asks for one in the
/// new directory, where sessions work from then on.
pub proof fn sessions_begin_in_their_directory(s: StateView, path: Seq<char>)
    ensures
        command_step(s, CommandView::NewSession) == CommandStepView::Ask(
            RequestView::NewSession { working_dir: s.working_dir, mcp_servers: s.mcp_servers },
        ),
        command_step(s, CommandView::ChangeDirectory { path }) == CommandStepView::Ask(
            RequestView::NewSession { working_dir: path, mcp_servers: s.mcp_servers },
        ),
        command_effect(s, CommandView::NewSession) == s,
        command_effect(s, CommandView::ChangeDirectory { path }) == (StateView {
            working_dir: path,
            ..s
        }),
        no_session() == CommandStepView::Answer(CommandReplyView::Failed("No active session"@)),
{
}

/// A prompt that is over ends the running answer, and a failure is told behind
/// that end; one that went well adds nothing.
pub proof fn prompts_close_the_answer(ending: Seq<ReplyView>, error: Seq<char>)
    ensures
        prompt_closing(ending, None) == ending,
        prompt_closing(ending, Some(error)) == ending + seq![
            ReplyView::Error("Prompt failed: "@ + error),
        ],
{
    assert(ending.push(ReplyView::Error("Prompt failed: "@ + error)) == ending + seq![
        ReplyView::Error("Prompt failed: "@ + error),
    ]);
}

/// What is asked of an agent is taken by the session and the words that it names,
/// and so is what comes back.
pub proof fn requests_are_taken_by_what_they_name(
    session: String,
    name: String,
    value: String,
    servers: Vec<McpServer>,
    names: Vec<String>,
    active: Option<String>,
)
    ensures
        (AcpCommand::SetModel { model: name })@ == (CommandView::SetModel { model: name@ }),
        (AcpCommand::SetMode { mode: name })@ == (CommandView::SetMode { mode: name@ }),
        (AcpCommand::ChangeDirectory { path: name })@ == (CommandView::ChangeDirectory {
            path: name@,
        }),
        (AcpCommand::SetConfigOption { config_id: name, value })@ == (
        CommandView::SetConfigOption { config_id: name@, value: value@ }),
        (AgentRequest::NewSession { working_dir: name, mcp_servers: servers })@ == (
        RequestView::NewSession { working_dir: name@, mcp_servers: server_views(servers@) }),
        (AgentRequest::SetModel { session_id: session, model: name })@ == (RequestView::SetModel {
            session_id: session@,
            model: name@,
        }),
        (AgentRequest::SetMode { session_id: session, mode: name })@ == (RequestView::SetMode {
            session_id: session@,
            mode: name@,
        }),
        (AgentRequest::SetConfigOption { session_id: session, config_id: name, value })@ == (
        RequestView::SetConfigOption { session_id: session@, config_id: name@, value: value@ }),
        CommandReply::Session(name)@ == CommandReplyView::Session(name@),
        CommandReply::Failed(name)@ == CommandReplyView::Failed(name@),
        (CommandReply::Names { available: names, active })@ == (CommandReplyView::Names {
            available: texts(names@),
            active: opt_text(active),
        }),
{
}

/// After a session was made, the client tells the modes that came with it and that
/// none of them was chosen; and the session's name is the answer.
pub proof fn new_sessions_tell_their_modes(
    state: &mut AcpClientState,
    response: SessionResponse,
    result: Result<SessionResponse, String>,
    made: CommandReply,
    after: &mut AcpClientState,
    cmd: &AcpCommand,
    r: CommandStep,
)
    requires
        result == Ok::<SessionResponse, String>(response),
        call_ensures(finish_new_session, (state, result), made),
        *old(after) == *final(state),
        call_ensures(handle_command, (after, cmd), r),
    ensures
        made@ == CommandReplyView::Session(response.session_id@),
        *cmd == AcpCommand::GetModes && response.modes is Some ==> r@ == CommandStepView::Answer(
            CommandReplyView::Names { available: texts(response.modes->0@), active: None },
        ),
        *cmd == AcpCommand::GetModels && response.models is Some ==> r@ == CommandStepView::Answer(
            CommandReplyView::Names { available: texts(response.models->0@), active: None },
        ),
        *cmd == AcpCommand::GetConfigOptions && response.config_options is Some ==> r@
            == CommandStepView::Answer(
            CommandReplyView::Options(shown_options(response.config_options->0@)),
        ),
{
}

/// A model that was set is the one that the client tells next; one that could not
/// be set leaves it as it was, and so with modes.
pub proof fn set_models_are_told(
    state: &mut AcpClientState,
    name: String,
    result: Result<(), String>,
    r: CommandReply,
)
    ensures
        call_ensures(finish_set_model, (state, name, result), r) ==> (match result {
            Ok(_) => r@ is Done && final(state)@.active_model == Some(name@) && final(state)@
                == (StateView { active_model: Some(name@), ..old(state)@ }),
            Err(e) => r@ == CommandReplyView::Failed("Failed to set model: "@ + e@)
                && final(state)@ == old(state)@,
        }),
        call_ensures(finish_set_mode, (state, name, result), r) ==> (match result {
            Ok(_) => r@ is Done && final(state)@.active_mode == Some(name@) && final(state)@
                == (StateView { active_mode: Some(name@), ..old(state)@ }),
            Err(e) => r@ == CommandReplyView::Failed("Failed to set mode: "@ + e@)
                && final(state)@ == old(state)@,
        }),
{
}

/// An option that was set brings all options as they are now; one that could not
/// be set is named with the reason, and nothing changes.
pub proof fn set_options_are_taken_over(
    state: &mut AcpClientState,
    id: &str,
    result: Result<Vec<AgentOption>, String>,
    r: CommandReply,
)
    requires
        call_ensures(finish_set_config_option, (state, id, result), r),
    ensures
        result matches Ok(options) ==> r@ is Done && final(state)@ == (StateView {
            available_config_options: shown_options(options@),
            ..old(state)@
        }),
        result matches Err(e) ==> r@ == CommandReplyView::Failed(
            "Failed to set config option '"@ + id@ + "': "@ + e@,
        ) && final(state)@ == old(state)@,
{
}

/// A session that could not be made is told with the reason, and the client stays
/// as it was. The first session is greeted.
pub proof fn failed_sessions_change_nothing(
    state: &mut AcpClientState,
    result: Result<SessionResponse, String>,
    r: CommandReply,
    response: &SessionResponse,
    said: OutgoingMessage,
)
    ensures
        call_ensures(finish_new_session, (state, result), r) && result is Err ==> r@
            == CommandReplyView::Failed("Failed to create session: "@ + result->Err_0@)
            && final(state)@ == old(state)@,
        call_ensures(start_session, (state, response), said) ==> said@ == ReplyView::Text(
            "Agent connected and ready!"@,
        ) && final(state)@.session_id == Some(response.session_id@),
{
}

/// A prompt goes to the session that there is, and where there is none the user is
/// told so.
pub proof fn prompts_go_to_the_session(
    state: &AcpClientState,
    r: Result<String, OutgoingMessage>,
)
    requires
        call_ensures(begin_prompt, (state,), r),
    ensures
        state@.session_id matches Some(id) ==> r is Ok && r->Ok_0@ == id,
        state@.session_id is None ==> r is Err && r->Err_0@ == ReplyView::Error(
            "No active session"@,
        ),
{
}

/// The end of a prompt ends the answer first, where one is open, and then tells the
/// error, where there is one.
pub proof fn prompts_end_their_answers(
    client: &mut AcpClient,
    state: &AcpClientState,
    error: &Option<String>,
    r: Vec<OutgoingMessage>,
)
    requires
        call_ensures(finish_prompt, (client, state, error), r),
    ensures
        !final(client)@.streaming,
        old(client)@.streaming && *error is None ==> replies(r@) == seq![ReplyView::StreamEnd],
        !old(client)@.streaming && *error is None ==> replies(r@) == Seq::<ReplyView>::empty(),
        old(client)@.streaming && *error is Some ==> replies(r@) == seq![
            ReplyView::StreamEnd,
            ReplyView::Error("Prompt failed: "@ + (*error)->0@),
        ],
        !old(client)@.streaming && *error is Some ==> replies(r@) == seq![
            ReplyView::Error("Prompt failed: "@ + (*error)->0@),
        ],
{
    if *error is Some {
        let word = ReplyView::Error("Prompt failed: "@ + (*error)->0@);
        assert(seq![ReplyView::StreamEnd].push(word) == seq![ReplyView::StreamEnd, word]);
        assert(Seq::<ReplyView>::empty().push(word) == seq![word]);
    }
}

/// What is handed to an agent that is not there, or no longer, is told to the user
/// and reported.
pub proof fn lost_prompts_are_reported(
    state: &AcpClientState,
    delivery: Delivery,
    r: Result<(), (OutgoingMessage, String)>,
)
    requires
        call_ensures(send_prompt, (state, delivery), r),
    ensures
        r is Ok <==> delivery is Sent,
        delivery is NotConnected ==> r->Err_0.0@ == ReplyView::Error("Agent not connected"@)
            && r->Err_0.1@ == "ACP connection not available"@,
        delivery is Closed ==> r->Err_0.0@ == ReplyView::Error("Failed to send prompt"@)
            && r->Err_0.1@ == "Failed to send prompt to channel"@,
{
}

/// The answer to a command is what the client answered; where the command did not
/// reach it, or no answer came, it has failed.
pub proof fn lost_commands_have_failed(
    sent: bool,
    reply: Option<CommandReply>,
    r: CommandReply,
)
    requires
        call_ensures(settle_command, (sent, reply), r),
    ensures
        sent && reply is Some ==> r == reply->0,
        sent && reply is None ==> r@ == CommandReplyView::Failed(
            "Command response channel closed"@,
        ),
        !sent ==> r@ == CommandReplyView::Failed("Failed to send command: channel closed"@),
{
}

/// A client whose agent broke off after it was connected starts again, after a
/// wait that doubles up to a minute. One whose agent never connected gives up and
/// says why, and one that ended in good order is done.
pub proof fn broken_agents_are_started_again(
    diagnostics: &StartupDiagnostics,
    connected: bool,
    error: &Option<String>,
    delay: u64,
    r: ClientStep,
)
    requires
        call_ensures(after_session, (diagnostics, connected, error, delay), r),
    ensures
        *error is None ==> r is Finished,
        *error is Some && connected ==> {
            &&& r matches ClientStep::Restart { delay: wait, next }
            &&& wait == delay
            &&& delay <= 30 ==> next == 2 * delay
            &&& delay > 30 ==> next == 60
        },
        *error is Some && !connected ==> r is StartupFailed,
{
}

}
