//! The course of a conversation: how a session comes up, takes the user's
//! messages one by one, and goes down.

use crate::acp_client::command::{AcpCommand, CommandReply, CommandReplyView, CommandView};
use crate::acp_client::options::{choice_views, ChoiceView, OptionView};
use crate::acp_client::options::{option_views, SessionConfigOptionChoice, SessionConfigOptionState};
use crate::acp_client::stream::replies;
use crate::channel::{ContentView, OutgoingMessage, ReplyView};
use crate::config::BotConfig;
use crate::message::IngressContent;
use crate::split::{
    cat, cat3, cat4, cat5, copy_opt, is_text, join, joined, opt_text, same, split_words, texts, words,
};
use crate::text::{trim_end, trimmed_end};
use vstd::prelude::*;
use vstd::string::*;

verus! {

// ---------------------------------------------------------------------------
// What a bot's configuration has set in every new session
// ---------------------------------------------------------------------------

/// Something that is set in every new session.
#[derive(Debug, Clone)]
pub enum Setting {
    Model(String),
    Mode(String),
    Option { id: String, value: String },
}

/// Something that is set in every new session, as text.
pub enum SettingView {
    Model(Seq<char>),
    Mode(Seq<char>),
    Option { id: Seq<char>, value: Seq<char> },
}

impl View for Setting {
    type V = SettingView;

    open spec fn view(&self) -> SettingView {
        match *self {
            Setting::Model(model) => SettingView::Model(model@),
            Setting::Mode(mode) => SettingView::Mode(mode@),
            Setting::Option { id, value } => SettingView::Option { id: id@, value: value@ },
        }
    }
}

/// Some settings, as text.
pub open spec fn setting_views(v: Seq<Setting>) -> Seq<SettingView> {
    v.map_values(|s: Setting| s@)
}

/// The settings of a bot, in the order in which they are made: its model, its
/// mode, and its options by name.
pub open spec fn settings_of(config: BotConfig) -> Seq<SettingView> {
    (match opt_text(config.model) {
        Some(model) => seq![SettingView::Model(model)],
        None => Seq::empty(),
    }) + (match opt_text(config.mode) {
        Some(mode) => seq![SettingView::Mode(mode)],
        None => Seq::empty(),
    }) + config.config_options.entries().map_values(
        |e: (Seq<char>, Seq<char>)| SettingView::Option { id: e.0, value: e.1 },
    )
}

/// The command that makes a setting.
pub open spec fn setting_command(s: SettingView) -> CommandView {
    match s {
        SettingView::Model(model) => CommandView::SetModel { model },
        SettingView::Mode(mode) => CommandView::SetMode { mode },
        SettingView::Option { id, value } => CommandView::SetConfigOption { config_id: id, value },
    }
}

/// What the user reads where a setting cannot be made.
pub open spec fn setting_failure(s: SettingView, error: Seq<char>) -> Seq<char> {
    match s {
        SettingView::Model(model) => "Failed to apply configured model '"@ + model + "': "@ + error,
        SettingView::Mode(mode) => "Failed to apply configured mode '"@ + mode + "': "@ + error,
        SettingView::Option { id, value } => "Failed to apply configured option '"@ + id + "="@
            + value + ("': "@ + error),
    }
}

/// The settings of a bot.
fn collect_settings(config: &BotConfig) -> (r: Vec<Setting>)
    ensures
        setting_views(r@) == settings_of(*config),
{
    let mut r: Vec<Setting> = Vec::new();
    if let Some(model) = &config.model {
        r.push(Setting::Model(model.clone()));
    }
    if let Some(mode) = &config.mode {
        r.push(Setting::Mode(mode.clone()));
    }
    let ghost head = setting_views(r@);
    let ghost entries = config.config_options.entries();
    let ghost tail = entries.map_values(
        |e: (Seq<char>, Seq<char>)| SettingView::Option { id: e.0, value: e.1 },
    );
    proof {
        assert(head =~= (match opt_text(config.model) {
            Some(model) => seq![SettingView::Model(model)],
            None => Seq::empty(),
        }) + (match opt_text(config.mode) {
            Some(mode) => seq![SettingView::Mode(mode)],
            None => Seq::empty(),
        }));
        assert(head + tail.take(0) == head);
    }
    let n: usize = config.config_options.len();
    let mut i: usize = 0;
    while i < n
        invariant
            i <= n,
            n == entries.len(),
            entries == config.config_options.entries(),
            tail == entries.map_values(
                |e: (Seq<char>, Seq<char>)| SettingView::Option { id: e.0, value: e.1 },
            ),
            setting_views(r@) == head + tail.take(i as int),
        decreases n - i,
    {
        let ghost before = r@;
        let setting = Setting::Option {
            id: config.config_options.name_at(i).clone(),
            value: config.config_options.value_at(i).clone(),
        };
        r.push(setting);
        proof {
            assert(setting@ == tail[i as int]);
            assert(setting_views(r@) == setting_views(before).push(setting@));
            assert(tail.take(i + 1) == tail.take(i as int).push(tail[i as int]));
            assert(head + tail.take(i + 1) == (head + tail.take(i as int)).push(tail[i as int]));
        }
        i += 1;
    }
    proof {
        assert(tail.take(n as int) == tail);
    }
    r
}

impl Setting {
    /// The command that makes the setting.
    fn command(&self) -> (r: AcpCommand)
        ensures
            r@ == setting_command(self@),
    {
        match self {
            Setting::Model(model) => AcpCommand::SetModel { model: model.clone() },
            Setting::Mode(mode) => AcpCommand::SetMode { mode: mode.clone() },
            Setting::Option { id, value } => AcpCommand::SetConfigOption {
                config_id: id.clone(),
                value: value.clone(),
            },
        }
    }

    /// What the user reads where the setting cannot be made.
    fn failure(&self, error: &str) -> (r: String)
        ensures
            r@ == setting_failure(self@, error@),
    {
        match self {
            Setting::Model(model) => cat4(
                "Failed to apply configured model '",
                model.as_str(),
                "': ",
                error,
            ),
            Setting::Mode(mode) => cat4(
                "Failed to apply configured mode '",
                mode.as_str(),
                "': ",
                error,
            ),
            Setting::Option { id, value } => {
                let tail = cat("': ", error);
                cat5(
                    "Failed to apply configured option '",
                    id.as_str(),
                    "=",
                    value.as_str(),
                    tail.as_str(),
                )
            },
        }
    }
}

// ---------------------------------------------------------------------------
// Lists that the user asks for
// ---------------------------------------------------------------------------

/// One line for each name, with a mark at the one in use.
pub open spec fn name_lines(names: Seq<Seq<char>>, active: Option<Seq<char>>) -> Seq<char>
    decreases names.len(),
{
    if names.len() == 0 {
        Seq::empty()
    } else {
        name_lines(names.drop_last(), active) + if active == Some(names.last()) {
            "- "@ + names.last() + " (current)\n"@
        } else {
            "- "@ + names.last() + "\n"@
        }
    }
}

fn list_names(names: &Vec<String>, active: &Option<String>) -> (r: String)
    ensures
        r@ == name_lines(texts(names@), opt_text(*active)),
{
    let mut r = String::new();
    let mut i: usize = 0;
    while i < names.len()
        invariant
            i <= names@.len(),
            r@ == name_lines(texts(names@).take(i as int), opt_text(*active)),
        decreases names@.len() - i,
    {
        proof {
            assert(texts(names@).take(i + 1).drop_last() == texts(names@).take(i as int));
            assert(texts(names@).take(i + 1).last() == names@[i as int]@);
        }
        if is_text(active, names[i].as_str()) {
            r.append(cat3("- ", names[i].as_str(), " (current)\n").as_str());
        } else {
            r.append(cat3("- ", names[i].as_str(), "\n").as_str());
        }
        i += 1;
    }
    proof {
        assert(texts(names@).take(names@.len() as int) == texts(names@));
    }
    r
}

/// A choice of an option, on one line.
pub open spec fn choice_text(c: ChoiceView) -> Seq<char> {
    match c.group {
        Some(group) => group + "/"@ + c.value + " ("@ + c.name + ")"@,
        None => c.value + " ("@ + c.name + ")"@,
    }
}

/// An option's own line.
pub open spec fn option_header(o: OptionView) -> Seq<char> {
    "- "@ + o.id + (match o.category {
        Some(category) => " ["@ + category + "]"@,
        None => Seq::empty(),
    }) + (match o.current_value {
        Some(value) => " current="@ + value,
        None => Seq::empty(),
    }) + (" ("@ + o.name + ")"@)
}

/// An option's lines: its own, and one with its choices if it has any.
pub open spec fn option_lines(o: OptionView) -> Seq<Seq<char>> {
    if o.choices.len() == 0 {
        seq![option_header(o)]
    } else {
        seq![
            option_header(o),
            "  choices: "@ + joined(o.choices.map_values(|c: ChoiceView| choice_text(c)), ", "@),
        ]
    }
}

/// The lines of some options under their heading.
pub open spec fn all_option_lines(options: Seq<OptionView>) -> Seq<Seq<char>>
    decreases options.len(),
{
    if options.len() == 0 {
        seq!["Available config options:"@]
    } else {
        all_option_lines(options.drop_last()) + option_lines(options.last())
    }
}

/// The options as the user reads them.
pub open spec fn options_text(options: Seq<OptionView>) -> Seq<char> {
    if options.len() == 0 {
        "No config options available."@
    } else {
        joined(all_option_lines(options), "\n"@)
    }
}

fn choice_line(c: &SessionConfigOptionChoice) -> (r: String)
    ensures
        r@ == choice_text(c@),
{
    let tail = cat3(" (", c.name.as_str(), ")");
    let plain = cat4(c.value.as_str(), " (", c.name.as_str(), ")");
    match &c.group {
        Some(group) => {
            let r = cat4(group.as_str(), "/", c.value.as_str(), tail.as_str());
            proof {
                assert(r@ =~= choice_text(c@));
            }
            r
        },
        None => plain,
    }
}

fn header_line(o: &SessionConfigOptionState) -> (r: String)
    ensures
        r@ == option_header(o@),
{
    let mut r = cat("- ", o.id.as_str());
    let ghost a = r@;
    if let Some(category) = &o.category {
        r.append(cat3(" [", category.as_str(), "]").as_str());
    }
    let ghost b = r@;
    if let Some(value) = &o.current_value {
        r.append(cat(" current=", value.as_str()).as_str());
    }
    r.append(cat3(" (", o.name.as_str(), ")").as_str());
    proof {
        assert(a + Seq::<char>::empty() == a);
        assert(b + Seq::<char>::empty() == b);
    }
    r
}

fn choices_line(choices: &Vec<SessionConfigOptionChoice>) -> (r: String)
    ensures
        r@ == "  choices: "@ + joined(
            choice_views(choices@).map_values(|c: ChoiceView| choice_text(c)),
            ", "@,
        ),
{
    let ghost all = choice_views(choices@).map_values(|c: ChoiceView| choice_text(c));
    let mut parts: Vec<String> = Vec::new();
    let mut i: usize = 0;
    while i < choices.len()
        invariant
            i <= choices@.len(),
            all == choice_views(choices@).map_values(|c: ChoiceView| choice_text(c)),
            texts(parts@) == all.take(i as int),
        decreases choices@.len() - i,
    {
        let line = choice_line(&choices[i]);
        parts.push(line);
        proof {
            assert(texts(parts@) == all.take(i as int).push(line@));
            assert(all.take(i + 1) == all.take(i as int).push(all[i as int]));
        }
        i += 1;
    }
    proof {
        assert(all.take(choices@.len() as int) == all);
    }
    let list = join(&parts, ", ");
    cat("  choices: ", list.as_str())
}

/// The options as the user reads them.
pub fn format_config_options(options: &Vec<SessionConfigOptionState>) -> (r: String)
    ensures
        r@ == options_text(option_views(options@)),
{
    if options.len() == 0 {
        return "No config options available.".to_string();
    }
    let ghost all = option_views(options@);
    let mut lines: Vec<String> = Vec::new();
    lines.push("Available config options:".to_string());
    proof {
        assert(texts(lines@) == seq!["Available config options:"@]);
    }
    let mut i: usize = 0;
    while i < options.len()
        invariant
            i <= options@.len(),
            all == option_views(options@),
            texts(lines@) == all_option_lines(all.take(i as int)),
        decreases options@.len() - i,
    {
        let ghost before = texts(lines@);
        let header = header_line(&options[i]);
        lines.push(header);
        proof {
            assert(all.take(i + 1).drop_last() == all.take(i as int));
            assert(all.take(i + 1).last() == options@[i as int]@);
            assert(texts(lines@) == before.push(header@));
        }
        if options[i].choices.len() > 0 {
            let line = choices_line(&options[i].choices);
            let ghost middle = texts(lines@);
            lines.push(line);
            proof {
                assert(texts(lines@) == middle.push(line@));
                assert(texts(lines@) == before + option_lines(options@[i as int]@));
            }
        } else {
            proof {
                assert(texts(lines@) == before + option_lines(options@[i as int]@));
            }
        }
        i += 1;
    }
    proof {
        assert(all.take(options@.len() as int) == all);
    }
    join(&lines, "\n")
}

// ---------------------------------------------------------------------------
// The conversation
// ---------------------------------------------------------------------------

/// What a conversation waits for, once it has asked for something.
#[derive(Debug, Clone)]
pub enum Pending {
    NewSession,
    SetModel { name: String },
    ListModels,
    SetMode { name: String },
    ListModes,
    SetOption { id: String, value: String },
    ListOptions,
    /// Whether there is such a directory.
    Directory { path: String },
    ChangeDirectory { path: String },
    /// A setting of the bot, by its number, and what is said after the last.
    Setting { index: usize, after: Option<String> },
}

/// What a conversation waits for, as text.
pub enum PendingView {
    NewSession,
    SetModel { name: Seq<char> },
    ListModels,
    SetMode { name: Seq<char> },
    ListModes,
    SetOption { id: Seq<char>, value: Seq<char> },
    ListOptions,
    Directory { path: Seq<char> },
    ChangeDirectory { path: Seq<char> },
    Setting { index: int, after: Option<Seq<char>> },
}

impl View for Pending {
    type V = PendingView;

    open spec fn view(&self) -> PendingView {
        match *self {
            Pending::NewSession => PendingView::NewSession,
            Pending::SetModel { name } => PendingView::SetModel { name: name@ },
            Pending::ListModels => PendingView::ListModels,
            Pending::SetMode { name } => PendingView::SetMode { name: name@ },
            Pending::ListModes => PendingView::ListModes,
            Pending::SetOption { id, value } => PendingView::SetOption { id: id@, value: value@ },
            Pending::ListOptions => PendingView::ListOptions,
            Pending::Directory { path } => PendingView::Directory { path: path@ },
            Pending::ChangeDirectory { path } => PendingView::ChangeDirectory { path: path@ },
            Pending::Setting { index, after } => PendingView::Setting {
                index: index as int,
                after: opt_text(after),
            },
        }
    }
}

/// How far a conversation has come.
#[derive(Debug, Clone)]
pub enum Phase {
    /// The agent is coming up; so many looks have found it still on its way.
    Starting { looks: u64 },
    /// One look is left before the agent is given up.
    LastLook,
    /// Waiting for the user.
    Idle,
    /// Waiting for an answer.
    Waiting(Pending),
    Stopped,
}

/// How far a conversation has come, as plain values.
pub enum PhaseView {
    Starting { looks: int },
    LastLook,
    Idle,
    Waiting(PendingView),
    Stopped,
}

impl View for Phase {
    type V = PhaseView;

    open spec fn view(&self) -> PhaseView {
        match *self {
            Phase::Starting { looks } => PhaseView::Starting { looks: looks as int },
            Phase::LastLook => PhaseView::LastLook,
            Phase::Idle => PhaseView::Idle,
            Phase::Waiting(pending) => PhaseView::Waiting(pending@),
            Phase::Stopped => PhaseView::Stopped,
        }
    }
}

/// What happens to a conversation.
#[derive(Debug, Clone)]
pub enum Event {
    /// A look at the agent that is coming up.
    Look { connected: bool, failed: bool, finished: bool },
    /// A message of the user, and whether the agent is still connected.
    Message { content: IngressContent, connected: bool },
    /// The answer to what the conversation asked.
    Reply(CommandReply),
    /// Whether the directory that the conversation asked about exists.
    Directory(bool),
    /// The conversation is to end.
    Shutdown,
    /// No more messages will come.
    Closed,
}

/// What happens to a conversation, as text.
pub enum EventView {
    Look { connected: bool, failed: bool, finished: bool },
    Message { content: ContentView, connected: bool },
    Reply(CommandReplyView),
    Directory(bool),
    Shutdown,
    Closed,
}

impl View for Event {
    type V = EventView;

    open spec fn view(&self) -> EventView {
        match *self {
            Event::Look { connected, failed, finished } => EventView::Look {
                connected,
                failed,
                finished,
            },
            Event::Message { content, connected } => EventView::Message {
                content: content@,
                connected,
            },
            Event::Reply(reply) => EventView::Reply(reply@),
            Event::Directory(found) => EventView::Directory(found),
            Event::Shutdown => EventView::Shutdown,
            Event::Closed => EventView::Closed,
        }
    }
}

/// What a conversation does next, once it has said what it has to say.
#[derive(Debug, Clone)]
pub enum Next {
    /// Look how the agent is doing, after a tenth of a second if `wait` says so.
    Look { wait: bool },
    /// Take the next event.
    Listen,
    /// Give the client a command and bring back the reply.
    Ask(AcpCommand),
    /// Give the agent a prompt, then take the next event.
    Prompt(String),
    /// Find out whether a directory exists.
    FindDirectory(String),
    /// End, and stop the agent if `abort` says so.
    Stop { abort: bool },
}

/// What a conversation does next, as text.
pub enum NextView {
    Look { wait: bool },
    Listen,
    Ask(CommandView),
    Prompt(Seq<char>),
    FindDirectory(Seq<char>),
    Stop { abort: bool },
}

impl View for Next {
    type V = NextView;

    open spec fn view(&self) -> NextView {
        match *self {
            Next::Look { wait } => NextView::Look { wait },
            Next::Listen => NextView::Listen,
            Next::Ask(cmd) => NextView::Ask(cmd@),
            Next::Prompt(text) => NextView::Prompt(text@),
            Next::FindDirectory(path) => NextView::FindDirectory(path@),
            Next::Stop { abort } => NextView::Stop { abort },
        }
    }
}

/// One step of a conversation: what is said, and what is done next.
#[derive(Debug, Clone)]
pub struct Step {
    pub say: Vec<OutgoingMessage>,
    pub next: Next,
}

/// One step of a conversation, as text.
#[verifier::ext_equal]
pub struct StepView {
    pub say: Seq<ReplyView>,
    pub next: NextView,
}

impl View for Step {
    type V = StepView;

    open spec fn view(&self) -> StepView {
        StepView { say: replies(self.say@), next: self.next@ }
    }
}

/// How many looks the agent has to come up.
pub const STARTUP_LOOKS: u64 = 100;

/// A conversation.
#[derive(Debug)]
pub struct Dialog {
    settings: Vec<Setting>,
    instructions: Option<String>,
    has_sent_instructions: bool,
    phase: Phase,
}

/// A conversation, as text.
#[verifier::ext_equal]
pub struct DialogView {
    pub settings: Seq<SettingView>,
    pub instructions: Option<Seq<char>>,
    pub has_sent_instructions: bool,
    pub phase: PhaseView,
}

impl View for Dialog {
    type V = DialogView;

    closed spec fn view(&self) -> DialogView {
        DialogView {
            settings: setting_views(self.settings@),
            instructions: opt_text(self.instructions),
            has_sent_instructions: self.has_sent_instructions,
            phase: self.phase@,
        }
    }
}

/// A step that says one thing and then listens.
pub open spec fn just(m: ReplyView) -> StepView {
    StepView { say: seq![m], next: NextView::Listen }
}

/// A step that says nothing and listens.
pub open spec fn nothing() -> StepView {
    StepView { say: Seq::empty(), next: NextView::Listen }
}

/// The conversation, in another phase.
pub open spec fn in_phase(d: DialogView, phase: PhaseView) -> DialogView {
    DialogView { phase, ..d }
}

/// Goes on with the setting of a number, or says what comes after the last and
/// waits for the user.
pub open spec fn make_settings(d: DialogView, index: int, after: Option<Seq<char>>) -> (
    DialogView,
    StepView,
) {
    if index < d.settings.len() {
        (
            in_phase(d, PhaseView::Waiting(PendingView::Setting { index, after })),
            StepView {
                say: Seq::empty(),
                next: NextView::Ask(setting_command(d.settings[index])),
            },
        )
    } else {
        (
            in_phase(d, PhaseView::Idle),
            match after {
                Some(text) => just(ReplyView::Text(text)),
                None => nothing(),
            },
        )
    }
}

/// The prompt for a text: the first has the bot's instructions before it.
pub open spec fn prompt_for(d: DialogView, text: Seq<char>) -> Seq<char> {
    match d.instructions {
        Some(instructions) => if d.has_sent_instructions {
            text
        } else {
            instructions + "\n\n"@ + text
        },
        None => text,
    }
}

/// The help text.
pub open spec fn help_text() -> Seq<char> {
    "Available commands:\n/new - Start a new session\n/model [name] - Switch model or list available models\n/mode [name] - Switch mode or list available modes\n/config [id value] - List config options or set one\n/cd <path> - Change working directory\n/bot [name] - Switch bot or list available bots\n/help - Show this help message"@
}

/// A step that says one thing and asks for another, and the phase to wait in.
pub open spec fn ask_saying(m: Seq<char>, cmd: CommandView, pending: PendingView) -> (
    PhaseView,
    StepView,
) {
    (
        PhaseView::Waiting(pending),
        StepView { say: seq![ReplyView::Text(m)], next: NextView::Ask(cmd) },
    )
}

/// A step that asks without a word, and the phase to wait in.
pub open spec fn ask_silently(cmd: CommandView, pending: PendingView) -> (PhaseView, StepView) {
    (PhaseView::Waiting(pending), StepView { say: Seq::empty(), next: NextView::Ask(cmd) })
}

/// What a command of the user starts.
pub open spec fn on_command(name: Seq<char>, args: Option<Seq<char>>) -> (PhaseView, StepView) {
    if name == "new"@ {
        ask_saying("Starting new session..."@, CommandView::NewSession, PendingView::NewSession)
    } else if name == "model"@ {
        match args {
            Some(model) => ask_saying(
                "Switching to model: "@ + model + "..."@,
                CommandView::SetModel { model },
                PendingView::SetModel { name: model },
            ),
            None => ask_silently(CommandView::GetModels, PendingView::ListModels),
        }
    } else if name == "mode"@ {
        match args {
            Some(mode) => ask_saying(
                "Switching to mode: "@ + mode + "..."@,
                CommandView::SetMode { mode },
                PendingView::SetMode { name: mode },
            ),
            None => ask_silently(CommandView::GetModes, PendingView::ListModes),
        }
    } else if name == "config"@ {
        on_config(match args {
            Some(text) => words(text),
            None => Seq::empty(),
        })
    } else if name == "cd"@ {
        match args {
            Some(path) => (
                PhaseView::Waiting(PendingView::Directory { path }),
                StepView { say: Seq::empty(), next: NextView::FindDirectory(path) },
            ),
            None => (PhaseView::Idle, just(ReplyView::Error("Usage: /cd <path>"@))),
        }
    } else if name == "help"@ {
        (PhaseView::Idle, just(ReplyView::Text(help_text())))
    } else if name == "bot"@ {
        (
            PhaseView::Idle,
            just(ReplyView::Text("Use /bot to list bots or /bot <name> to switch."@)),
        )
    } else {
        (PhaseView::Idle, just(ReplyView::Error("Unknown command: /"@ + name)))
    }
}

/// What `/config` starts, by its words: a list where there are none, and
/// otherwise a setting of the option that the first names to the rest.
pub open spec fn on_config(w: Seq<Seq<char>>) -> (PhaseView, StepView) {
    if w.len() == 0 {
        ask_silently(CommandView::GetConfigOptions, PendingView::ListOptions)
    } else if w.len() == 1 {
        (PhaseView::Idle, just(ReplyView::Error("Usage: /config [id value]"@)))
    } else {
        let id = w[0];
        let value = joined(w.skip(1), " "@);
        ask_saying(
            "Setting config option "@ + id + "="@ + value + "..."@,
            CommandView::SetConfigOption { config_id: id, value },
            PendingView::SetOption { id, value },
        )
    }
}

/// What the user reads of the models or modes.
pub open spec fn names_text(
    heading: Seq<char>,
    none: Seq<char>,
    available: Seq<Seq<char>>,
    active: Option<Seq<char>>,
) -> Seq<char> {
    if available.len() == 0 {
        none
    } else {
        heading + trim_end(name_lines(available, active))
    }
}

/// What the user reads where something that was asked for failed.
pub open spec fn failure_text(pending: PendingView, error: Seq<char>) -> Seq<char> {
    match pending {
        PendingView::NewSession => "Failed to start new session: "@ + error,
        PendingView::SetModel { name } => "Failed to change model: "@ + error,
        PendingView::ListModels => "Failed to get models: "@ + error,
        PendingView::SetMode { name } => "Failed to change mode: "@ + error,
        PendingView::ListModes => "Failed to get modes: "@ + error,
        PendingView::SetOption { id, value } => "Failed to change config option '"@ + id + "': "@
            + error,
        PendingView::ListOptions => "Failed to get config options: "@ + error,
        PendingView::Directory { path } => "Failed to change directory: "@ + error,
        PendingView::ChangeDirectory { path } => "Failed to change directory: "@ + error,
        PendingView::Setting { index, after } => error,
    }
}

/// What an answer leads to. One that does not fit what was asked is dropped.
pub open spec fn on_reply(d: DialogView, pending: PendingView, reply: CommandReplyView) -> (
    DialogView,
    StepView,
) {
    let idle = in_phase(d, PhaseView::Idle);
    match (pending, reply) {
        (PendingView::Setting { index, after }, _) => {
            let (next, step) = make_settings(d, index + 1, after);
            match reply {
                CommandReplyView::Failed(e) => if 0 <= index < d.settings.len() {
                    (
                        next,
                        StepView {
                            say: seq![ReplyView::Error(setting_failure(d.settings[index], e))]
                                + step.say,
                            next: step.next,
                        },
                    )
                } else {
                    (next, step)
                },
                _ => (next, step),
            }
        },
        (_, CommandReplyView::Failed(e)) => (idle, just(ReplyView::Error(failure_text(pending, e)))),
        (PendingView::NewSession, CommandReplyView::Session(id)) => make_settings(
            d,
            0,
            Some("New session started: "@ + id),
        ),
        (PendingView::ChangeDirectory { path }, CommandReplyView::Session(id)) => make_settings(
            d,
            0,
            Some("Changed directory to: "@ + path + "\nNew session: "@ + id),
        ),
        (PendingView::SetModel { name }, CommandReplyView::Done) => (
            idle,
            just(ReplyView::Text("Model changed to: "@ + name)),
        ),
        (PendingView::SetMode { name }, CommandReplyView::Done) => (
            idle,
            just(ReplyView::Text("Mode changed to: "@ + name)),
        ),
        (PendingView::SetOption { id, value }, CommandReplyView::Done) => (
            idle,
            just(ReplyView::Text("Config option changed: "@ + id + "="@ + value)),
        ),
        (PendingView::ListModels, CommandReplyView::Names { available, active }) => (
            idle,
            just(
                ReplyView::Text(
                    names_text("Available models:\n"@, "No models available."@, available, active),
                ),
            ),
        ),
        (PendingView::ListModes, CommandReplyView::Names { available, active }) => (
            idle,
            just(
                ReplyView::Text(
                    names_text("Available modes:\n"@, "No modes available."@, available, active),
                ),
            ),
        ),
        (PendingView::ListOptions, CommandReplyView::Options(options)) => (
            idle,
            just(ReplyView::Text(options_text(options))),
        ),
        _ => (idle, nothing()),
    }
}

/// What a message of the user leads to.
pub open spec fn on_message(d: DialogView, content: ContentView, connected: bool) -> (
    DialogView,
    StepView,
) {
    if !connected {
        (
            in_phase(d, PhaseView::Stopped),
            StepView {
                say: seq![ReplyView::Error("Agent disconnected"@)],
                next: NextView::Stop { abort: true },
            },
        )
    } else {
        match content {
            ContentView::Text(text) => (
                DialogView { has_sent_instructions: true, phase: PhaseView::Idle, ..d },
                StepView { say: Seq::empty(), next: NextView::Prompt(prompt_for(d, text)) },
            ),
            ContentView::Command { name, args } => {
                let (phase, step) = on_command(name, args);
                (in_phase(d, phase), step)
            },
        }
    }
}

/// What a look at the agent that is coming up leads to.
pub open spec fn on_look(d: DialogView, looks: int, connected: bool, failed: bool, finished: bool) -> (
    DialogView,
    StepView,
) {
    if connected {
        make_settings(d, 0, None)
    } else if failed {
        (
            in_phase(d, PhaseView::Stopped),
            StepView { say: Seq::empty(), next: NextView::Stop { abort: false } },
        )
    } else if finished {
        (
            in_phase(d, PhaseView::LastLook),
            StepView { say: Seq::empty(), next: NextView::Look { wait: false } },
        )
    } else {
        (
            in_phase(
                d,
                if looks + 1 < STARTUP_LOOKS {
                    PhaseView::Starting { looks: looks + 1 }
                } else {
                    PhaseView::LastLook
                },
            ),
            StepView { say: Seq::empty(), next: NextView::Look { wait: true } },
        )
    }
}

/// What the last look at the agent leads to.
pub open spec fn on_last_look(d: DialogView, failed: bool) -> (DialogView, StepView) {
    if failed {
        (
            in_phase(d, PhaseView::Stopped),
            StepView { say: Seq::empty(), next: NextView::Stop { abort: false } },
        )
    } else {
        (
            in_phase(d, PhaseView::Stopped),
            StepView {
                say: seq![ReplyView::Error("Agent failed to connect within timeout"@)],
                next: NextView::Stop { abort: true },
            },
        )
    }
}

/// What an event leads to. One that does not belong to the phase is dropped.
pub open spec fn dialog_step(d: DialogView, event: EventView) -> (DialogView, StepView) {
    match (d.phase, event) {
        (PhaseView::Starting { looks }, EventView::Look { connected, failed, finished }) => on_look(
            d,
            looks,
            connected,
            failed,
            finished,
        ),
        (PhaseView::LastLook, EventView::Look { connected, failed, finished }) => on_last_look(
            d,
            failed,
        ),
        (PhaseView::Idle, EventView::Message { content, connected }) => on_message(
            d,
            content,
            connected,
        ),
        (PhaseView::Idle, EventView::Shutdown) => (
            in_phase(d, PhaseView::Stopped),
            StepView {
                say: seq![ReplyView::Text("Bot is shutting down..."@)],
                next: NextView::Stop { abort: true },
            },
        ),
        (PhaseView::Idle, EventView::Closed) => (
            in_phase(d, PhaseView::Stopped),
            StepView { say: Seq::empty(), next: NextView::Stop { abort: true } },
        ),
        (PhaseView::Waiting(pending), EventView::Directory(found)) => match pending {
            PendingView::Directory { path } => if found {
                let (phase, step) = ask_saying(
                    "Changing directory to: "@ + path + "..."@,
                    CommandView::ChangeDirectory { path },
                    PendingView::ChangeDirectory { path },
                );
                (in_phase(d, phase), step)
            } else {
                (
                    in_phase(d, PhaseView::Idle),
                    just(ReplyView::Error("Directory not found: "@ + path)),
                )
            },
            _ => (d, nothing()),
        },
        (PhaseView::Waiting(pending), EventView::Reply(reply)) => on_reply(d, pending, reply),
        _ => (d, nothing()),
    }
}

/// A step that says one thing and does another.
fn say_and(m: OutgoingMessage, next: Next) -> (r: Step)
    ensures
        r@ == (StepView { say: seq![m@], next: next@ }),
{
    let mut say: Vec<OutgoingMessage> = Vec::new();
    say.push(m);
    assert(replies(say@) =~= seq![m@]);
    Step { say, next }
}

/// A step without a word.
fn silent(next: Next) -> (r: Step)
    ensures
        r@ == (StepView { say: Seq::empty(), next: next@ }),
{
    let say: Vec<OutgoingMessage> = Vec::new();
    assert(replies(say@) =~= Seq::<ReplyView>::empty());
    Step { say, next }
}

fn say_text(text: String) -> (r: Step)
    ensures
        r@ == just(ReplyView::Text(text@)),
{
    say_and(OutgoingMessage::text(text), Next::Listen)
}

fn say_error(text: String) -> (r: Step)
    ensures
        r@ == just(ReplyView::Error(text@)),
{
    say_and(OutgoingMessage::error(text), Next::Listen)
}

fn names_reply(heading: &str, none: &str, available: &Vec<String>, active: &Option<String>) -> (r:
    String)
    ensures
        r@ == names_text(heading@, none@, texts(available@), opt_text(*active)),
{
    if available.len() == 0 {
        none.to_string()
    } else {
        let list = list_names(available, active);
        cat(heading, trimmed_end(list.as_str()))
    }
}

impl Dialog {
    /// A conversation with a bot that is coming up.
    pub fn new(config: &BotConfig) -> (r: Self)
        ensures
            r@ == (DialogView {
                settings: settings_of(*config),
                instructions: opt_text(config.instructions),
                has_sent_instructions: false,
                phase: PhaseView::Starting { looks: 0 },
            }),
    {
        Dialog {
            settings: collect_settings(config),
            instructions: copy_opt(&config.instructions),
            has_sent_instructions: false,
            phase: Phase::Starting { looks: 0 },
        }
    }

    /// The first step: word to the user, and a look at the agent.
    pub fn start(&self) -> (r: Step)
        ensures
            r@ == (StepView {
                say: seq![ReplyView::Text("Agent is starting..."@)],
                next: NextView::Look { wait: false },
            }),
    {
        say_and(
            OutgoingMessage::text("Agent is starting...".to_string()),
            Next::Look { wait: false },
        )
    }

    /// Goes on with the setting of a number.
    fn apply_configured_session_settings(&mut self, index: usize, after: Option<String>) -> (r: Step)
        ensures
            (final(self)@, r@) == make_settings(old(self)@, index as int, opt_text(after)),
    {
        if index < self.settings.len() {
            let cmd = self.settings[index].command();
            self.phase = Phase::Waiting(Pending::Setting { index, after });
            silent(Next::Ask(cmd))
        } else {
            self.phase = Phase::Idle;
            match after {
                Some(text) => say_text(text),
                None => silent(Next::Listen),
            }
        }
    }

    /// Waits for an answer.
    fn wait_for(&mut self, pending: Pending)
        ensures
            final(self)@ == in_phase(old(self)@, PhaseView::Waiting(pending@)),
    {
        self.phase = Phase::Waiting(pending);
    }

    /// Takes a look at the agent that is coming up.
    fn wait_for_connection(&mut self, looks: u64, connected: bool, failed: bool, finished: bool) -> (
        r: Step)
        ensures
            (final(self)@, r@) == on_look(old(self)@, looks as int, connected, failed, finished),
    {
        if connected {
            self.apply_configured_session_settings(0, None)
        } else if failed {
            self.phase = Phase::Stopped;
            silent(Next::Stop { abort: false })
        } else if finished {
            self.phase = Phase::LastLook;
            silent(Next::Look { wait: false })
        } else {
            if looks < STARTUP_LOOKS - 1 {
                self.phase = Phase::Starting { looks: looks + 1 };
            } else {
                self.phase = Phase::LastLook;
            }
            silent(Next::Look { wait: true })
        }
    }

    /// Takes a text of the user: the prompt for the agent.
    fn handle_text(&mut self, text: String) -> (r: Step)
        ensures
            (final(self)@, r@) == on_message(old(self)@, ContentView::Text(text@), true),
    {
        self.phase = Phase::Idle;
        let prompt = match &self.instructions {
            Some(instructions) => if self.has_sent_instructions {
                text
            } else {
                cat3(instructions.as_str(), "\n\n", text.as_str())
            },
            None => text,
        };
        self.has_sent_instructions = true;
        silent(Next::Prompt(prompt))
    }

    /// Takes a command of the user.
    fn handle_command(&mut self, name: &str, args: Option<String>) -> (r: Step)
        ensures
            ({
                let (phase, step) = on_command(name@, opt_text(args));
                final(self)@ == in_phase(old(self)@, phase) && r@ == step
            }),
    {
        self.phase = Phase::Idle;
        if same(name, "new") {
            self.wait_for(Pending::NewSession);
            say_and(
                OutgoingMessage::text("Starting new session...".to_string()),
                Next::Ask(AcpCommand::NewSession),
            )
        } else if same(name, "model") {
            match args {
                Some(model) => {
                    let word = cat3("Switching to model: ", model.as_str(), "...");
                    self.wait_for(Pending::SetModel { name: model.clone() });
                    say_and(OutgoingMessage::text(word), Next::Ask(AcpCommand::SetModel { model }))
                },
                None => {
                    self.wait_for(Pending::ListModels);
                    silent(Next::Ask(AcpCommand::GetModels))
                },
            }
        } else if same(name, "mode") {
            match args {
                Some(mode) => {
                    let word = cat3("Switching to mode: ", mode.as_str(), "...");
                    self.wait_for(Pending::SetMode { name: mode.clone() });
                    say_and(OutgoingMessage::text(word), Next::Ask(AcpCommand::SetMode { mode }))
                },
                None => {
                    self.wait_for(Pending::ListModes);
                    silent(Next::Ask(AcpCommand::GetModes))
                },
            }
        } else if same(name, "config") {
            let parts = match &args {
                Some(text) => split_words(text.as_str()),
                None => Vec::new(),
            };
            proof {
                if args is None {
                    assert(texts(parts@) =~= Seq::<Seq<char>>::empty());
                }
            }
            self.configure(parts)
        } else if same(name, "cd") {
            match args {
                Some(path) => {
                    self.wait_for(Pending::Directory { path: path.clone() });
                    silent(Next::FindDirectory(path))
                },
                None => say_error("Usage: /cd <path>".to_string()),
            }
        } else if same(name, "help") {
            say_text(
                "Available commands:\n/new - Start a new session\n/model [name] - Switch model or list available models\n/mode [name] - Switch mode or list available modes\n/config [id value] - List config options or set one\n/cd <path> - Change working directory\n/bot [name] - Switch bot or list available bots\n/help - Show this help message".to_string(),
            )
        } else if same(name, "bot") {
            say_text("Use /bot to list bots or /bot <name> to switch.".to_string())
        } else {
            say_error(cat("Unknown command: /", name))
        }
    }

    /// Takes the words of `/config`.
    fn configure(&mut self, mut parts: Vec<String>) -> (r: Step)
        requires
            old(self)@.phase == PhaseView::Idle,
        ensures
            ({
                let (phase, step) = on_config(texts(parts@));
                final(self)@ == in_phase(old(self)@, phase) && r@ == step
            }),
    {
        if parts.len() == 0 {
            self.wait_for(Pending::ListOptions);
            silent(Next::Ask(AcpCommand::GetConfigOptions))
        } else if parts.len() == 1 {
            say_error("Usage: /config [id value]".to_string())
        } else {
            let ghost w = texts(parts@);
            let id = parts.remove(0);
            proof {
                assert(texts(parts@) == w.skip(1));
            }
            let value = join(&parts, " ");
            let word = cat5("Setting config option ", id.as_str(), "=", value.as_str(), "...");
            self.wait_for(Pending::SetOption { id: id.clone(), value: value.clone() });
            say_and(
                OutgoingMessage::text(word),
                Next::Ask(AcpCommand::SetConfigOption { config_id: id, value }),
            )
        }
    }

    /// Takes a message of the user.
    fn handle_message(&mut self, content: IngressContent, connected: bool) -> (r: Step)
        ensures
            (final(self)@, r@) == on_message(old(self)@, content@, connected),
    {
        if !connected {
            self.phase = Phase::Stopped;
            return say_and(
                OutgoingMessage::error("Agent disconnected".to_string()),
                Next::Stop { abort: true },
            );
        }
        match content {
            IngressContent::Text(text) => self.handle_text(text),
            IngressContent::Command { name, args } => self.handle_command(name.as_str(), args),
        }
    }

    /// Takes the answer to what the conversation asked.
    fn handle_reply(&mut self, pending: Pending, reply: CommandReply) -> (r: Step)
        requires
            old(self)@.phase == PhaseView::Waiting(pending@),
        ensures
            (final(self)@, r@) == on_reply(old(self)@, pending@, reply@),
    {
        match pending {
            Pending::Setting { index, after } => {
                if index >= self.settings.len() {
                    self.phase = Phase::Idle;
                    return match after {
                        Some(text) => say_text(text),
                        None => silent(Next::Listen),
                    };
                }
                let failure = match &reply {
                    CommandReply::Failed(e) => Some(self.settings[index].failure(e.as_str())),
                    _ => None,
                };
                let mut step = self.apply_configured_session_settings(index + 1, after);
                if let Some(text) = failure {
                    let ghost rest = replies(step.say@);
                    let word = OutgoingMessage::error(text);
                    step.say.insert(0, word);
                    assert(replies(step.say@) =~= seq![word@] + rest);
                }
                step
            },
            Pending::NewSession => match reply {
                CommandReply::Failed(e) => {
                    self.phase = Phase::Idle;
                    say_error(cat("Failed to start new session: ", e.as_str()))
                },
                CommandReply::Session(id) => self.apply_configured_session_settings(
                    0,
                    Some(cat("New session started: ", id.as_str())),
                ),
                _ => self.drop_reply(),
            },
            Pending::ChangeDirectory { path } => match reply {
                CommandReply::Failed(e) => {
                    self.phase = Phase::Idle;
                    say_error(cat("Failed to change directory: ", e.as_str()))
                },
                CommandReply::Session(id) => self.apply_configured_session_settings(
                    0,
                    Some(
                        cat4("Changed directory to: ", path.as_str(), "\nNew session: ", id.as_str()),
                    ),
                ),
                _ => self.drop_reply(),
            },
            Pending::Directory { path: _ } => match reply {
                CommandReply::Failed(e) => {
                    self.phase = Phase::Idle;
                    say_error(cat("Failed to change directory: ", e.as_str()))
                },
                _ => self.drop_reply(),
            },
            Pending::SetModel { name } => {
                self.phase = Phase::Idle;
                match reply {
                    CommandReply::Failed(e) => say_error(cat("Failed to change model: ", e.as_str())),
                    CommandReply::Done => say_text(cat("Model changed to: ", name.as_str())),
                    _ => silent(Next::Listen),
                }
            },
            Pending::SetMode { name } => {
                self.phase = Phase::Idle;
                match reply {
                    CommandReply::Failed(e) => say_error(cat("Failed to change mode: ", e.as_str())),
                    CommandReply::Done => say_text(cat("Mode changed to: ", name.as_str())),
                    _ => silent(Next::Listen),
                }
            },
            Pending::SetOption { id, value } => {
                self.phase = Phase::Idle;
                match reply {
                    CommandReply::Failed(e) => say_error(
                        cat4("Failed to change config option '", id.as_str(), "': ", e.as_str()),
                    ),
                    CommandReply::Done => say_text(
                        cat4("Config option changed: ", id.as_str(), "=", value.as_str()),
                    ),
                    _ => silent(Next::Listen),
                }
            },
            Pending::ListModels => {
                self.phase = Phase::Idle;
                match reply {
                    CommandReply::Failed(e) => say_error(cat("Failed to get models: ", e.as_str())),
                    CommandReply::Names { available, active } => say_text(
                        names_reply(
                            "Available models:\n",
                            "No models available.",
                            &available,
                            &active,
                        ),
                    ),
                    _ => silent(Next::Listen),
                }
            },
            Pending::ListModes => {
                self.phase = Phase::Idle;
                match reply {
                    CommandReply::Failed(e) => say_error(cat("Failed to get modes: ", e.as_str())),
                    CommandReply::Names { available, active } => say_text(
                        names_reply("Available modes:\n", "No modes available.", &available, &active),
                    ),
                    _ => silent(Next::Listen),
                }
            },
            Pending::ListOptions => {
                self.phase = Phase::Idle;
                match reply {
                    CommandReply::Failed(e) => say_error(
                        cat("Failed to get config options: ", e.as_str()),
                    ),
                    CommandReply::Options(options) => say_text(format_config_options(&options)),
                    _ => silent(Next::Listen),
                }
            },
        }
    }

    /// Drops an answer that does not fit what was asked.
    fn drop_reply(&mut self) -> (r: Step)
        ensures
            final(self)@ == in_phase(old(self)@, PhaseView::Idle),
            r@ == nothing(),
    {
        self.phase = Phase::Idle;
        silent(Next::Listen)
    }

    /// Takes an event: changes the conversation, and says what is to be done.
    pub fn step(&mut self, event: Event) -> (r: Step)
        ensures
            (final(self)@, r@) == dialog_step(old(self)@, event@),
    {
        let phase = self.take_phase();
        match (phase, event) {
            (Phase::Starting { looks }, Event::Look { connected, failed, finished }) =>
                self.wait_for_connection(looks, connected, failed, finished),
            (Phase::LastLook, Event::Look { connected: _, failed, finished: _ }) => {
                self.phase = Phase::Stopped;
                if failed {
                    silent(Next::Stop { abort: false })
                } else {
                    say_and(
                        OutgoingMessage::error("Agent failed to connect within timeout".to_string()),
                        Next::Stop { abort: true },
                    )
                }
            },
            (Phase::Idle, Event::Message { content, connected }) => self.handle_message(
                content,
                connected,
            ),
            (Phase::Idle, Event::Shutdown) => {
                self.phase = Phase::Stopped;
                say_and(
                    OutgoingMessage::text("Bot is shutting down...".to_string()),
                    Next::Stop { abort: true },
                )
            },
            (Phase::Idle, Event::Closed) => {
                self.phase = Phase::Stopped;
                silent(Next::Stop { abort: true })
            },
            (Phase::Waiting(pending), Event::Directory(found)) => match pending {
                Pending::Directory { path } => if found {
                    let word = cat3("Changing directory to: ", path.as_str(), "...");
                    self.wait_for(Pending::ChangeDirectory { path: path.clone() });
                    say_and(
                        OutgoingMessage::text(word),
                        Next::Ask(AcpCommand::ChangeDirectory { path }),
                    )
                } else {
                    self.phase = Phase::Idle;
                    say_error(cat("Directory not found: ", path.as_str()))
                },
                _ => silent(Next::Listen),
            },
            (Phase::Waiting(pending), Event::Reply(reply)) => self.handle_reply(pending, reply),
            _ => silent(Next::Listen),
        }
    }

    /// A copy of the phase.
    fn take_phase(&self) -> (r: Phase)
        ensures
            r@ == self@.phase,
    {
        match &self.phase {
            Phase::Starting { looks } => Phase::Starting { looks: *looks },
            Phase::LastLook => Phase::LastLook,
            Phase::Idle => Phase::Idle,
            Phase::Stopped => Phase::Stopped,
            Phase::Waiting(pending) => Phase::Waiting(
                match pending {
                    Pending::NewSession => Pending::NewSession,
                    Pending::SetModel { name } => Pending::SetModel { name: name.clone() },
                    Pending::ListModels => Pending::ListModels,
                    Pending::SetMode { name } => Pending::SetMode { name: name.clone() },
                    Pending::ListModes => Pending::ListModes,
                    Pending::SetOption { id, value } => Pending::SetOption {
                        id: id.clone(),
                        value: value.clone(),
                    },
                    Pending::ListOptions => Pending::ListOptions,
                    Pending::Directory { path } => Pending::Directory { path: path.clone() },
                    Pending::ChangeDirectory { path } => Pending::ChangeDirectory {
                        path: path.clone(),
                    },
                    Pending::Setting { index, after } => Pending::Setting {
                        index: *index,
                        after: copy_opt(after),
                    },
                },
            ),
        }
    }
}

// ---------------------------------------------------------------------------
// Laws
// ---------------------------------------------------------------------------

/// A conversation after some events.
pub open spec fn after_events(d: DialogView, events: Seq<EventView>) -> DialogView
    decreases events.len(),
{
    if events.len() == 0 {
        d
    } else {
        dialog_step(after_events(d, events.drop_last()), events.last()).0
    }
}

/// Instructions stand before the first prompt of a conversation.
pub proof fn the_first_prompt_brings_the_instructions(d: DialogView, text: Seq<char>)
    requires
        d.phase == PhaseView::Idle,
        !d.has_sent_instructions,
    ensures
        ({
            let event = EventView::Message { content: ContentView::Text(text), connected: true };
            let (next, step) = dialog_step(d, event);
            &&& step.next == NextView::Prompt(
                match d.instructions {
                    Some(instructions) => instructions + "\n\n"@ + text,
                    None => text,
                },
            )
            &&& next.has_sent_instructions
        }),
{
}

/// Once the instructions have been sent they are never sent again: whatever
/// happens in between, every later prompt is what the user wrote.
pub proof fn instructions_are_sent_once(d: DialogView, events: Seq<EventView>, text: Seq<char>)
    requires
        d.has_sent_instructions,
    ensures
        after_events(d, events).has_sent_instructions,
        ({
            let event = EventView::Message { content: ContentView::Text(text), connected: true };
            let (_, step) = dialog_step(after_events(d, events), event);
            after_events(d, events).phase == PhaseView::Idle ==> step.next == NextView::Prompt(text)
        }),
    decreases events.len(),
{
    if events.len() > 0 {
        instructions_are_sent_once(d, events.drop_last(), text);
        lemma_instructions_stay_sent(after_events(d, events.drop_last()), events.last());
    }
}

proof fn lemma_instructions_stay_sent(d: DialogView, event: EventView)
    requires
        d.has_sent_instructions,
    ensures
        dialog_step(d, event).0.has_sent_instructions,
{
}

/// Nothing changes a conversation's settings and instructions.
pub proof fn settings_never_change(d: DialogView, event: EventView)
    ensures
        dialog_step(d, event).0.settings == d.settings,
        dialog_step(d, event).0.instructions == d.instructions,
{
}

/// A conversation in which the settings are being made, after some answers.
pub open spec fn after_answers(d: DialogView, answers: Seq<CommandReplyView>) -> DialogView
    decreases answers.len(),
{
    if answers.len() == 0 {
        d
    } else {
        dialog_step(after_answers(d, answers.drop_last()), EventView::Reply(answers.last())).0
    }
}

/// The settings of a bot are made one by one and in their order, whatever the
/// agent answers: after so many answers the setting of that number is waited
/// for, and after the last the conversation goes on with the user.
pub proof fn settings_are_made_in_order(
    d: DialogView,
    after: Option<Seq<char>>,
    answers: Seq<CommandReplyView>,
)
    requires
        answers.len() <= d.settings.len(),
    ensures
        after_answers(make_settings(d, 0, after).0, answers) == make_settings(
            d,
            answers.len() as int,
            after,
        ).0,
        answers.len() < d.settings.len() ==> make_settings(d, answers.len() as int, after).1.next
            == NextView::Ask(setting_command(d.settings[answers.len() as int])),
        answers.len() == d.settings.len() ==> make_settings(
            d,
            answers.len() as int,
            after,
        ).0.phase == PhaseView::Idle,
    decreases answers.len(),
{
    if answers.len() > 0 {
        settings_are_made_in_order(d, after, answers.drop_last());
    }
}

/// A session that the user asks for is set up like the first: its settings are
/// made before the user is told of it.
pub proof fn new_sessions_are_set_up(d: DialogView, id: Seq<char>)
    requires
        d.phase == PhaseView::Waiting(PendingView::NewSession),
    ensures
        dialog_step(d, EventView::Reply(CommandReplyView::Session(id))) == make_settings(
            d,
            0,
            Some("New session started: "@ + id),
        ),
{
}

/// A conversation that is coming up, after so many looks that found nothing.
pub open spec fn after_looks(d: DialogView, n: nat) -> DialogView
    decreases n,
{
    if n == 0 {
        d
    } else {
        dialog_step(
            after_looks(d, (n - 1) as nat),
            EventView::Look { connected: false, failed: false, finished: false },
        ).0
    }
}

/// An agent has a hundred looks to come up, and one more is taken before it is
/// given up.
pub proof fn agents_have_time_to_come_up(d: DialogView, n: nat)
    requires
        d.phase == (PhaseView::Starting { looks: 0 }),
    ensures
        n < STARTUP_LOOKS ==> after_looks(d, n).phase == (PhaseView::Starting { looks: n as int }),
        n == STARTUP_LOOKS ==> after_looks(d, n).phase == PhaseView::LastLook,
        n == STARTUP_LOOKS + 1 ==> after_looks(d, n).phase == PhaseView::Stopped,
    decreases n,
{
    if n > 0 && n <= STARTUP_LOOKS + 1 {
        agents_have_time_to_come_up(d, (n - 1) as nat);
    }
}

/// A conversation that has ended stays so, and says nothing more.
pub proof fn ended_conversations_are_silent(d: DialogView, event: EventView)
    requires
        d.phase == PhaseView::Stopped,
    ensures
        dialog_step(d, event) == (d, nothing()),
{
}

/// A command that the conversation does not know is answered, and changes
/// nothing.
pub proof fn unknown_commands_change_nothing(d: DialogView, name: Seq<char>, args: Option<Seq<char>>)
    requires
        d.phase == PhaseView::Idle,
        name != "new"@,
        name != "model"@,
        name != "mode"@,
        name != "config"@,
        name != "cd"@,
        name != "help"@,
        name != "bot"@,
    ensures
        dialog_step(
            d,
            EventView::Message { content: ContentView::Command { name, args }, connected: true },
        ) == (d, just(ReplyView::Error("Unknown command: /"@ + name))),
{
}

/// A conversation that waits for an answer goes on when one comes, whatever it
/// is: it turns to the user again, or to the next of the bot's settings.
pub proof fn every_answer_leads_on(d: DialogView, pending: PendingView, reply: CommandReplyView)
    requires
        d.phase == PhaseView::Waiting(pending),
        pending matches PendingView::Setting { index, after } ==> index >= 0,
    ensures
        match dialog_step(d, EventView::Reply(reply)).0.phase {
            PhaseView::Idle => true,
            PhaseView::Waiting(PendingView::Setting { index, after }) => {
                &&& 0 <= index < d.settings.len()
                &&& pending matches PendingView::Setting { index: before, after: _ } ==> index
                    == before + 1
            },
            _ => false,
        },
{
}

/// The command that a bot's setting is made with names just what the bot's
/// configuration names.
pub proof fn settings_are_asked_for_as_configured(name: Seq<char>, value: Seq<char>)
    ensures
        setting_command(SettingView::Model(name)) == (CommandView::SetModel { model: name }),
        setting_command(SettingView::Mode(name)) == (CommandView::SetMode { mode: name }),
        setting_command(SettingView::Option { id: name, value }) == (CommandView::SetConfigOption {
            config_id: name,
            value,
        }),
{
}

/// A setting that cannot be made is reported by what it is and why.
pub proof fn failed_settings_are_named(name: Seq<char>, value: Seq<char>, error: Seq<char>)
    ensures
        setting_failure(SettingView::Model(name), error) == "Failed to apply configured model '"@
            + name + "': "@ + error,
        setting_failure(SettingView::Mode(name), error) == "Failed to apply configured mode '"@
            + name + "': "@ + error,
        setting_failure(SettingView::Option { id: name, value }, error)
            == "Failed to apply configured option '"@ + name + "="@ + value + ("': "@ + error),
{
}

/// All that a bot's configuration sets is set: its model first, where it has one,
/// then its mode, where it has one, and then each of its options.
pub proof fn settings_are_those_of_the_configuration(config: BotConfig, i: int)
    ensures
        ({
            let s = settings_of(config);
            let models: int = if config.model is Some {
                1
            } else {
                0
            };
            let modes: int = if config.mode is Some {
                1
            } else {
                0
            };
            let options = config.config_options.entries();
            &&& s.len() == models + modes + options.len()
            &&& config.model matches Some(model) ==> s[0] == SettingView::Model(model@)
            &&& config.mode matches Some(mode) ==> s[models] == SettingView::Mode(mode@)
            &&& 0 <= i < options.len() ==> s[models + modes + i] == (SettingView::Option {
                id: options[i].0,
                value: options[i].1,
            })
        }),
{
}

/// The step that the last of some events leads to.
pub open spec fn last_step(d: DialogView, events: Seq<EventView>) -> StepView {
    dialog_step(after_events(d, events.drop_last()), events.last()).1
}

/// The event that brings a session, followed by answers to what is asked then.
pub open spec fn session_and_answers(first: EventView, answers: Seq<CommandReplyView>) -> Seq<
    EventView,
> {
    seq![first] + answers.map_values(|a: CommandReplyView| EventView::Reply(a))
}

/// What is asked, and what is said, while the settings of a bot are made: after
/// each answer the next setting is asked for, and after the last one the news is
/// told. A setting that failed is reported before that.
pub open spec fn settings_follow(
    d: DialogView,
    first: EventView,
    answers: Seq<CommandReplyView>,
    news: Option<Seq<char>>,
) -> bool {
    let n = answers.len() as int;
    let events = session_and_answers(first, answers);
    let step = last_step(d, events);
    let failed = if n > 0 {
        match answers[n - 1] {
            CommandReplyView::Failed(e) => seq![
                ReplyView::Error(
                    match d.settings[n - 1] {
                        SettingView::Model(model) => "Failed to apply configured model '"@ + model
                            + "': "@ + e,
                        SettingView::Mode(mode) => "Failed to apply configured mode '"@ + mode
                            + "': "@ + e,
                        SettingView::Option { id, value } => "Failed to apply configured option '"@
                            + id + "="@ + value + ("': "@ + e),
                    },
                ),
            ],
            _ => Seq::empty(),
        }
    } else {
        Seq::empty()
    };
    if n < d.settings.len() {
        &&& step.say == failed
        &&& step.next == NextView::Ask(
            match d.settings[n] {
                SettingView::Model(model) => CommandView::SetModel { model },
                SettingView::Mode(mode) => CommandView::SetMode { mode },
                SettingView::Option { id, value } => CommandView::SetConfigOption {
                    config_id: id,
                    value,
                },
            },
        )
    } else {
        &&& step.say == failed + (match news {
            Some(text) => seq![ReplyView::Text(text)],
            None => Seq::empty(),
        })
        &&& step.next == NextView::Listen
        &&& after_events(d, events).phase == PhaseView::Idle
    }
}

proof fn lemma_settings_follow(
    d: DialogView,
    first: EventView,
    answers: Seq<CommandReplyView>,
    news: Option<Seq<char>>,
)
    requires
        dialog_step(d, first) == make_settings(d, 0, news),
        answers.len() <= d.settings.len(),
    ensures
        after_events(d, session_and_answers(first, answers)) == make_settings(
            d,
            answers.len() as int,
            news,
        ).0,
        settings_follow(d, first, answers, news),
    decreases answers.len(),
{
    let events = session_and_answers(first, answers);
    if answers.len() == 0 {
        assert(events =~= seq![first]);
        assert(events.drop_last() =~= Seq::<EventView>::empty());
        assert(after_events(d, events.drop_last()) == d);
        let step = last_step(d, events);
        assert(step.say =~= Seq::<ReplyView>::empty() + step.say);
    } else {
        let front = answers.drop_last();
        lemma_settings_follow(d, first, front, news);
        assert(events.drop_last() =~= session_and_answers(first, front));
        assert(events.last() == EventView::Reply(answers.last()));
        let before = make_settings(d, front.len() as int, news).0;
        let after = make_settings(d, answers.len() as int, news);
        assert(make_settings(before, answers.len() as int, news) == after);
        let step = last_step(d, events);
        assert(answers[answers.len() - 1] == answers.last());
        assert(Seq::<ReplyView>::empty() + after.1.say =~= after.1.say);
        match answers.last() {
            CommandReplyView::Failed(e) => {
                let word = ReplyView::Error(setting_failure(d.settings[front.len() as int], e));
                assert(seq![word] + Seq::<ReplyView>::empty() =~= seq![word]);
            },
            _ => {},
        }
    }
}

/// A session that the user asked for, be it by `/new` or by `/cd`, is set up
/// before the user is told of it: the bot's model, mode and options are asked for
/// one by one, in their order, whatever the agent answers, and then the user reads
/// which session it is.
pub proof fn every_new_session_is_set_up(
    d: DialogView,
    path: Seq<char>,
    id: Seq<char>,
    answers: Seq<CommandReplyView>,
)
    requires
        answers.len() <= d.settings.len(),
    ensures
        d.phase == PhaseView::Waiting(PendingView::NewSession) ==> settings_follow(
            d,
            EventView::Reply(CommandReplyView::Session(id)),
            answers,
            Some("New session started: "@ + id),
        ),
        d.phase == PhaseView::Waiting(PendingView::ChangeDirectory { path }) ==> settings_follow(
            d,
            EventView::Reply(CommandReplyView::Session(id)),
            answers,
            Some("Changed directory to: "@ + path + "\nNew session: "@ + id),
        ),
{
    let first = EventView::Reply(CommandReplyView::Session(id));
    if d.phase == PhaseView::Waiting(PendingView::NewSession) {
        lemma_settings_follow(d, first, answers, Some("New session started: "@ + id));
    }
    if d.phase == PhaseView::Waiting(PendingView::ChangeDirectory { path }) {
        lemma_settings_follow(
            d,
            first,
            answers,
            Some("Changed directory to: "@ + path + "\nNew session: "@ + id),
        );
    }
}

/// A session in another directory is set up like any other: the answer that brings
/// it leads to the first of the bot's settings, and what the user reads of it comes
/// after the last.
pub proof fn sessions_elsewhere_are_set_up(d: DialogView, path: Seq<char>, id: Seq<char>)
    requires
        d.phase == PhaseView::Waiting(PendingView::ChangeDirectory { path }),
    ensures
        dialog_step(d, EventView::Reply(CommandReplyView::Session(id))) == make_settings(
            d,
            0,
            Some("Changed directory to: "@ + path + "\nNew session: "@ + id),
        ),
{
}

/// The first session of a conversation is set up as soon as the agent is
/// connected, without a word to the user.
pub proof fn the_first_session_is_set_up(
    d: DialogView,
    looks: int,
    failed: bool,
    finished: bool,
    answers: Seq<CommandReplyView>,
)
    requires
        d.phase == (PhaseView::Starting { looks }),
        answers.len() <= d.settings.len(),
    ensures
        settings_follow(
            d,
            EventView::Look { connected: true, failed, finished },
            answers,
            None,
        ),
{
    lemma_settings_follow(
        d,
        EventView::Look { connected: true, failed, finished },
        answers,
        None,
    );
}

/// An agent that is not connected yet is looked at again a tenth of a second
/// later, for a hundred times; one that failed is given up without a word; and one
/// that has ended, or has not come up by then, is looked at once more, and given up
/// with a word to the user.
pub proof fn agents_are_waited_for(d: DialogView, looks: int, connected: bool, finished: bool)
    requires
        0 <= looks < 100,
    ensures
        ({
            let quiet = EventView::Look { connected: false, failed: false, finished: false };
            let ended = EventView::Look { connected: false, failed: false, finished: true };
            let failed = EventView::Look { connected: false, failed: true, finished };
            let failed_last = EventView::Look { connected, failed: true, finished };
            let silent_last = EventView::Look { connected, failed: false, finished };
            let starting = DialogView { phase: PhaseView::Starting { looks }, ..d };
            let last = DialogView { phase: PhaseView::LastLook, ..d };
            let stopped = DialogView { phase: PhaseView::Stopped, ..d };
            &&& dialog_step(starting, quiet) == (
                DialogView {
                    phase: if looks == 99 {
                        PhaseView::LastLook
                    } else {
                        PhaseView::Starting { looks: looks + 1 }
                    },
                    ..d
                },
                StepView { say: Seq::empty(), next: NextView::Look { wait: true } },
            )
            &&& dialog_step(starting, ended) == (
                last,
                StepView { say: Seq::empty(), next: NextView::Look { wait: false } },
            )
            &&& dialog_step(starting, failed) == (
                stopped,
                StepView { say: Seq::empty(), next: NextView::Stop { abort: false } },
            )
            &&& dialog_step(last, failed_last) == (
                stopped,
                StepView { say: Seq::empty(), next: NextView::Stop { abort: false } },
            )
            &&& dialog_step(last, silent_last) == (
                stopped,
                StepView {
                    say: seq![ReplyView::Error("Agent failed to connect within timeout"@)],
                    next: NextView::Stop { abort: true },
                },
            )
        }),
{
}

/// A conversation ends, and its agent is stopped, when the agent is found gone,
/// when the conversation is told to end, and when no more messages will come. The
/// user reads of the first two.
pub proof fn conversations_end_with_their_agent(d: DialogView, content: ContentView)
    requires
        d.phase == PhaseView::Idle,
    ensures
        ({
            let stopped = DialogView { phase: PhaseView::Stopped, ..d };
            let stop = NextView::Stop { abort: true };
            &&& dialog_step(d, EventView::Message { content, connected: false }) == (
                stopped,
                StepView { say: seq![ReplyView::Error("Agent disconnected"@)], next: stop },
            )
            &&& dialog_step(d, EventView::Shutdown) == (
                stopped,
                StepView { say: seq![ReplyView::Text("Bot is shutting down..."@)], next: stop },
            )
            &&& dialog_step(d, EventView::Closed) == (
                stopped,
                StepView { say: Seq::empty(), next: stop },
            )
        }),
{
}

proof fn lemma_command_names()
    ensures
        "model"@ != "new"@,
        "mode"@ != "new"@,
        "mode"@ != "model"@,
        "config"@ != "new"@,
        "config"@ != "model"@,
        "config"@ != "mode"@,
        "cd"@ != "new"@,
        "cd"@ != "model"@,
        "cd"@ != "mode"@,
        "cd"@ != "config"@,
        "help"@ != "new"@,
        "help"@ != "model"@,
        "help"@ != "mode"@,
        "help"@ != "config"@,
        "help"@ != "cd"@,
        "bot"@ != "new"@,
        "bot"@ != "model"@,
        "bot"@ != "mode"@,
        "bot"@ != "config"@,
        "bot"@ != "cd"@,
        "bot"@ != "help"@,
{
    reveal_strlit("new");
    reveal_strlit("model");
    reveal_strlit("mode");
    reveal_strlit("config");
    reveal_strlit("cd");
    reveal_strlit("help");
    reveal_strlit("bot");
    assert("model"@.len() == 5);
    assert("mode"@.len() == 4);
    assert("help"@.len() == 4);
    assert("help"@[0] == 'h');
    assert("mode"@[0] == 'm');
    assert("new"@[0] == 'n');
    assert("bot"@[0] == 'b');
    assert("config"@.len() == 6);
    assert("cd"@.len() == 2);
}

/// A message with a command, of a user whose agent is there.
pub open spec fn command_message(name: Seq<char>, args: Option<Seq<char>>) -> EventView {
    EventView::Message { content: ContentView::Command { name, args }, connected: true }
}

/// `/new`, and `/model` and `/mode` with a name, say what is begun and ask the
/// client for just that; without a name the two lists are asked for. None of this
/// changes anything but what the conversation waits for.
pub proof fn commands_ask_for_what_they_name(d: DialogView, name: Seq<char>)
    requires
        d.phase == PhaseView::Idle,
    ensures
        dialog_step(d, command_message("new"@, None)) == (
            DialogView { phase: PhaseView::Waiting(PendingView::NewSession), ..d },
            StepView {
                say: seq![ReplyView::Text("Starting new session..."@)],
                next: NextView::Ask(CommandView::NewSession),
            },
        ),
        dialog_step(d, command_message("new"@, Some(name))) == dialog_step(
            d,
            command_message("new"@, None),
        ),
        dialog_step(d, command_message("model"@, Some(name))) == (
            DialogView { phase: PhaseView::Waiting(PendingView::SetModel { name }), ..d },
            StepView {
                say: seq![ReplyView::Text("Switching to model: "@ + name + "..."@)],
                next: NextView::Ask(CommandView::SetModel { model: name }),
            },
        ),
        dialog_step(d, command_message("mode"@, Some(name))) == (
            DialogView { phase: PhaseView::Waiting(PendingView::SetMode { name }), ..d },
            StepView {
                say: seq![ReplyView::Text("Switching to mode: "@ + name + "..."@)],
                next: NextView::Ask(CommandView::SetMode { mode: name }),
            },
        ),
        dialog_step(d, command_message("model"@, None)) == (
            DialogView { phase: PhaseView::Waiting(PendingView::ListModels), ..d },
            StepView { say: Seq::empty(), next: NextView::Ask(CommandView::GetModels) },
        ),
        dialog_step(d, command_message("mode"@, None)) == (
            DialogView { phase: PhaseView::Waiting(PendingView::ListModes), ..d },
            StepView { say: Seq::empty(), next: NextView::Ask(CommandView::GetModes) },
        ),
{
    lemma_command_names();
}

/// `/config` asks for a list where nothing follows it; sets the option that its
/// first word names to the other words, with one blank between each two; and is
/// refused where there is one word only.
pub proof fn options_are_set_by_words(d: DialogView, args: Seq<char>)
    requires
        d.phase == PhaseView::Idle,
    ensures
        ({
            let list = (
                DialogView { phase: PhaseView::Waiting(PendingView::ListOptions), ..d },
                StepView { say: Seq::empty(), next: NextView::Ask(CommandView::GetConfigOptions) },
            );
            let w = words(args);
            let step = dialog_step(d, command_message("config"@, Some(args)));
            &&& dialog_step(d, command_message("config"@, None)) == list
            &&& w.len() == 0 ==> step == list
            &&& w.len() == 1 ==> step == (
                d,
                StepView {
                    say: seq![ReplyView::Error("Usage: /config [id value]"@)],
                    next: NextView::Listen,
                },
            )
            &&& w.len() > 1 ==> {
                let id = w[0];
                let value = joined(w.skip(1), " "@);
                step == (
                    DialogView {
                        phase: PhaseView::Waiting(PendingView::SetOption { id, value }),
                        ..d
                    },
                    StepView {
                        say: seq![
                            ReplyView::Text("Setting config option "@ + id + "="@ + value + "..."@),
                        ],
                        next: NextView::Ask(CommandView::SetConfigOption { config_id: id, value }),
                    },
                )
            }
        }),
{
    lemma_command_names();
}

/// `/cd` finds out whether the directory exists before anything else. Where it
/// does, the user reads that it is changed to and the client is told to; where it
/// does not, the user is told so. Without a directory the user reads how it is
/// used.
pub proof fn directories_are_looked_for_first(d: DialogView, path: Seq<char>)
    requires
        d.phase == PhaseView::Idle,
    ensures
        ({
            let looking = DialogView {
                phase: PhaseView::Waiting(PendingView::Directory { path }),
                ..d
            };
            &&& dialog_step(d, command_message("cd"@, Some(path))) == (
                looking,
                StepView { say: Seq::empty(), next: NextView::FindDirectory(path) },
            )
            &&& dialog_step(looking, EventView::Directory(true)) == (
                DialogView { phase: PhaseView::Waiting(PendingView::ChangeDirectory { path }), ..d },
                StepView {
                    say: seq![ReplyView::Text("Changing directory to: "@ + path + "..."@)],
                    next: NextView::Ask(CommandView::ChangeDirectory { path }),
                },
            )
            &&& dialog_step(looking, EventView::Directory(false)) == (
                d,
                StepView {
                    say: seq![ReplyView::Error("Directory not found: "@ + path)],
                    next: NextView::Listen,
                },
            )
            &&& dialog_step(d, command_message("cd"@, None)) == (
                d,
                StepView {
                    say: seq![ReplyView::Error("Usage: /cd <path>"@)],
                    next: NextView::Listen,
                },
            )
        }),
{
    lemma_command_names();
}

/// `/help` and `/bot` are answered at once, whatever follows them, and change
/// nothing.
pub proof fn help_changes_nothing(d: DialogView, args: Option<Seq<char>>)
    requires
        d.phase == PhaseView::Idle,
    ensures
        dialog_step(d, command_message("help"@, args)) == (
            d,
            StepView { say: seq![ReplyView::Text(help_text())], next: NextView::Listen },
        ),
        dialog_step(d, command_message("bot"@, args)) == (
            d,
            StepView {
                say: seq![ReplyView::Text("Use /bot to list bots or /bot <name> to switch."@)],
                next: NextView::Listen,
            },
        ),
{
    lemma_command_names();
}

/// A change that was made is told with what was changed and to what.
pub proof fn changes_are_confirmed(d: DialogView, name: Seq<char>, value: Seq<char>)
    ensures
        ({
            let done = EventView::Reply(CommandReplyView::Done);
            let idle = DialogView { phase: PhaseView::Idle, ..d };
            let waiting = |p: PendingView| DialogView { phase: PhaseView::Waiting(p), ..d };
            &&& dialog_step(waiting(PendingView::SetModel { name }), done) == (
                idle,
                StepView {
                    say: seq![ReplyView::Text("Model changed to: "@ + name)],
                    next: NextView::Listen,
                },
            )
            &&& dialog_step(waiting(PendingView::SetMode { name }), done) == (
                idle,
                StepView {
                    say: seq![ReplyView::Text("Mode changed to: "@ + name)],
                    next: NextView::Listen,
                },
            )
            &&& dialog_step(waiting(PendingView::SetOption { id: name, value }), done) == (
                idle,
                StepView {
                    say: seq![ReplyView::Text("Config option changed: "@ + name + "="@ + value)],
                    next: NextView::Listen,
                },
            )
        }),
{
}

/// What failed is told with what was asked for and why, and the conversation goes
/// on with the user.
pub proof fn failures_are_told(d: DialogView, error: Seq<char>, pending: PendingView)
    requires
        d.phase == PhaseView::Waiting(pending),
        !(pending is Setting),
        !(pending is Directory),
    ensures
        ({
            let (next, step) = dialog_step(d, EventView::Reply(CommandReplyView::Failed(error)));
            &&& next == (DialogView { phase: PhaseView::Idle, ..d })
            &&& step.next == NextView::Listen
            &&& step.say == seq![
                ReplyView::Error(
                    match pending {
                        PendingView::NewSession => "Failed to start new session: "@ + error,
                        PendingView::SetModel { name } => "Failed to change model: "@ + error,
                        PendingView::ListModels => "Failed to get models: "@ + error,
                        PendingView::SetMode { name } => "Failed to change mode: "@ + error,
                        PendingView::ListModes => "Failed to get modes: "@ + error,
                        PendingView::SetOption { id, value } => "Failed to change config option '"@
                            + id + "': "@ + error,
                        PendingView::ListOptions => "Failed to get config options: "@ + error,
                        _ => "Failed to change directory: "@ + error,
                    },
                ),
            ]
        }),
{
}

/// One line for each of some names, with a mark behind the one in use, wherever it
/// stands, and behind no other.
proof fn lemma_name_lines(
    names: Seq<Seq<char>>,
    active: Option<Seq<char>>,
    lines: Seq<Seq<char>>,
    n: int,
)
    requires
        0 <= n <= names.len() == lines.len(),
        forall|i: int|
            0 <= i < names.len() ==> #[trigger] lines[i] == "- "@ + names[i] + (if active == Some(
                names[i],
            ) {
                " (current)\n"@
            } else {
                "\n"@
            }),
    ensures
        name_lines(names.take(n), active) == joined(lines.take(n), Seq::empty()),
    decreases n,
{
    if n > 0 {
        lemma_name_lines(names, active, lines, n - 1);
        assert(names.take(n).drop_last() == names.take(n - 1));
        assert(names.take(n).last() == names[n - 1]);
        assert(lines.take(n) == lines.take(n - 1).push(lines[n - 1]));
        crate::split::lemma_joined_push(lines.take(n - 1), lines[n - 1]);
    }
}

/// The models and the modes that the session offers are listed one by one, in its
/// order, and the one in use is marked, wherever it stands, and no other. Where
/// there are none the user reads that.
pub proof fn lists_mark_what_is_in_use(
    d: DialogView,
    available: Seq<Seq<char>>,
    active: Option<Seq<char>>,
)
    ensures
        ({
            let reply = EventView::Reply(CommandReplyView::Names { available, active });
            let lines = Seq::new(
                available.len(),
                |i: int|
                    "- "@ + available[i] + (if active == Some(available[i]) {
                        " (current)\n"@
                    } else {
                        "\n"@
                    }),
            );
            let list = trim_end(joined(lines, Seq::empty()));
            let idle = DialogView { phase: PhaseView::Idle, ..d };
            let models = DialogView { phase: PhaseView::Waiting(PendingView::ListModels), ..d };
            let modes = DialogView { phase: PhaseView::Waiting(PendingView::ListModes), ..d };
            let say = |text: Seq<char>|
                (idle, StepView { say: seq![ReplyView::Text(text)], next: NextView::Listen });
            &&& available.len() > 0 ==> dialog_step(models, reply) == say(
                "Available models:\n"@ + list,
            ) && dialog_step(modes, reply) == say("Available modes:\n"@ + list)
            &&& available.len() == 0 ==> dialog_step(models, reply) == say("No models available."@)
                && dialog_step(modes, reply) == say("No modes available."@)
        }),
{
    let lines = Seq::new(
        available.len(),
        |i: int|
            "- "@ + available[i] + (if active == Some(available[i]) {
                " (current)\n"@
            } else {
                "\n"@
            }),
    );
    lemma_name_lines(available, active, lines, available.len() as int);
    assert(available.take(available.len() as int) == available);
    assert(lines.take(available.len() as int) == lines);
}

/// An option is listed with its id, its category and its present value, where it
/// has them, and its name; and where it has choices these follow on a line of
/// their own, each with its value, its name, and its heading where it has one.
pub proof fn options_are_listed_in_full(
    id: Seq<char>,
    name: Seq<char>,
    category: Seq<char>,
    value: Seq<char>,
    choices: Seq<ChoiceView>,
)
    ensures
        ({
            let all = OptionView {
                id,
                name,
                category: Some(category),
                current_value: Some(value),
                choices,
            };
            let bare = OptionView { id, name, category: None, current_value: None, choices };
            let words = choices.map_values(
                |c: ChoiceView|
                    (match c.group {
                        Some(group) => group + "/"@ + c.value + " ("@ + c.name + ")"@,
                        None => c.value + " ("@ + c.name + ")"@,
                    }),
            );
            let full = "- "@ + id + (" ["@ + category + "]"@) + (" current="@ + value) + (" ("@
                + name + ")"@);
            let short = "- "@ + id + (" ("@ + name + ")"@);
            let list = "  choices: "@ + joined(words, ", "@);
            &&& choices.len() == 0 ==> option_lines(all) == seq![full] && option_lines(bare)
                == seq![short]
            &&& choices.len() > 0 ==> option_lines(all) == seq![full, list] && option_lines(bare)
                == seq![short, list]
        }),
{
    let bare = "- "@ + id;
    assert(bare + Seq::<char>::empty() == bare);
    let words = choices.map_values(
        |c: ChoiceView|
            (match c.group {
                Some(group) => group + "/"@ + c.value + " ("@ + c.name + ")"@,
                None => c.value + " ("@ + c.name + ")"@,
            }),
    );
    assert(words =~= choices.map_values(|c: ChoiceView| choice_text(c)));
}

/// All options are listed under a heading, in the session's order; where there are
/// none the user reads that.
pub proof fn every_option_is_listed(d: DialogView, options: Seq<OptionView>, last: OptionView)
    ensures
        ({
            let idle = DialogView { phase: PhaseView::Idle, ..d };
            let asked = DialogView { phase: PhaseView::Waiting(PendingView::ListOptions), ..d };
            &&& dialog_step(asked, EventView::Reply(CommandReplyView::Options(Seq::empty()))) == (
                idle,
                StepView {
                    say: seq![ReplyView::Text("No config options available."@)],
                    next: NextView::Listen,
                },
            )
            &&& options.len() > 0 ==> dialog_step(
                asked,
                EventView::Reply(CommandReplyView::Options(options)),
            ) == (
                idle,
                StepView {
                    say: seq![ReplyView::Text(joined(all_option_lines(options), "\n"@))],
                    next: NextView::Listen,
                },
            )
            &&& all_option_lines(Seq::empty()) == seq!["Available config options:"@]
            &&& all_option_lines(options.push(last)) == all_option_lines(options) + option_lines(
                last,
            )
        }),
{
    assert(options.push(last).drop_last() == options);
}

/// What happens in a conversation, and what follows, is taken by the words, the
/// commands and the times that it holds.
pub proof fn steps_are_taken_by_what_they_hold(
    content: IngressContent,
    reply: CommandReply,
    cmd: AcpCommand,
    text: String,
    value: String,
    yes: bool,
    wait: bool,
)
    ensures
        (Event::Message { content, connected: yes })@ == (EventView::Message {
            content: content@,
            connected: yes,
        }),
        Event::Reply(reply)@ == EventView::Reply(reply@),
        Event::Directory(yes)@ == EventView::Directory(yes),
        Event::Shutdown@ == EventView::Shutdown,
        Event::Closed@ == EventView::Closed,
        (Next::Look { wait })@ == (NextView::Look { wait }),
        Next::Listen@ == NextView::Listen,
        Next::Ask(cmd)@ == NextView::Ask(cmd@),
        Next::Prompt(text)@ == NextView::Prompt(text@),
        Next::FindDirectory(text)@ == NextView::FindDirectory(text@),
        (Next::Stop { abort: yes })@ == (NextView::Stop { abort: yes }),
        Setting::Model(text)@ == SettingView::Model(text@),
        Setting::Mode(text)@ == SettingView::Mode(text@),
        (Setting::Option { id: text, value })@ == (SettingView::Option {
            id: text@,
            value: value@,
        }),
{
}

/// What comes out of turn changes nothing and is answered by nothing: a
/// conversation that waits for an answer takes that answer only, one that listens
/// takes messages and its end only, one whose agent is coming up takes looks only,
/// and one that has ended takes nothing.
pub proof fn events_out_of_turn_change_nothing(d: DialogView, event: EventView)
    requires
        match d.phase {
            PhaseView::Starting { looks } => !(event is Look),
            PhaseView::LastLook => !(event is Look),
            PhaseView::Idle => event is Look || event is Reply || event is Directory,
            PhaseView::Waiting(pending) => !(event is Reply) && !(event is Directory
                && pending is Directory),
            PhaseView::Stopped => true,
        },
    ensures
        dialog_step(d, event).0 == d,
        dialog_step(d, event).1.say.len() == 0,
        dialog_step(d, event).1.next == NextView::Listen,
{
}

/// A conversation that gets the session of a new directory asks for its first
/// setting before it says anything, and where it has no settings it says at once
/// where it is now and what the session is.
pub proof fn new_directories_are_set_up_first(
    d: &mut Dialog,
    event: Event,
    r: Step,
    id: String,
    path: Seq<char>,
)
    requires
        call_ensures(Dialog::step, (d, event), r),
        event == Event::Reply(CommandReply::Session(id)),
        old(d)@.phase == PhaseView::Waiting(PendingView::ChangeDirectory { path }),
    ensures
        ({
            let news = "Changed directory to: "@ + path + "\nNew session: "@ + id@;
            &&& old(d)@.settings.len() == 0 ==> r@.say == seq![ReplyView::Text(news)] && r@.next
                == NextView::Listen && final(d)@.phase == PhaseView::Idle
            &&& old(d)@.settings.len() > 0 ==> {
                &&& r@.say.len() == 0
                &&& final(d)@.phase == PhaseView::Waiting(
                    PendingView::Setting { index: 0, after: Some(news) },
                )
                &&& match old(d)@.settings[0] {
                    SettingView::Model(model) => r@.next == NextView::Ask(
                        CommandView::SetModel { model },
                    ),
                    SettingView::Mode(mode) => r@.next == NextView::Ask(
                        CommandView::SetMode { mode },
                    ),
                    SettingView::Option { id, value } => r@.next == NextView::Ask(
                        CommandView::SetConfigOption { config_id: id, value },
                    ),
                }
            }
            &&& final(d)@.settings == old(d)@.settings
        }),
{
}

/// The settings are asked for one after the other: when one is answered the next is
/// asked for, and after the last the news is told.
pub proof fn settings_are_asked_one_by_one(
    d: &mut Dialog,
    event: Event,
    r: Step,
    index: int,
    news: Seq<char>,
)
    requires
        call_ensures(Dialog::step, (d, event), r),
        event == Event::Reply(CommandReply::Done),
        0 <= index < old(d)@.settings.len(),
        old(d)@.phase == PhaseView::Waiting(PendingView::Setting { index, after: Some(news) }),
    ensures
        index + 1 < old(d)@.settings.len() ==> r@.say.len() == 0 && r@.next is Ask && final(d)@.phase
            == PhaseView::Waiting(PendingView::Setting { index: index + 1, after: Some(news) }),
        index + 1 == old(d)@.settings.len() ==> r@.say == seq![ReplyView::Text(news)] && r@.next
            == NextView::Listen && final(d)@.phase == PhaseView::Idle,
{
}

/// A new conversation has said nothing, waits for its agent, and says first that the
/// agent is starting.
pub proof fn new_conversations_wait_for_their_agent(
    config: &BotConfig,
    r: Dialog,
    dialog: &Dialog,
    first: Step,
)
    ensures
        call_ensures(Dialog::new, (config,), r) ==> {
            &&& r@.phase == (PhaseView::Starting { looks: 0 })
            &&& !r@.has_sent_instructions
            &&& config.instructions is Some ==> r@.instructions == Some(config.instructions->0@)
            &&& config.instructions is None ==> r@.instructions is None
            &&& r@.settings == settings_of(*config)
        },
        call_ensures(Dialog::start, (dialog,), first) ==> first@.say == seq![
            ReplyView::Text("Agent is starting..."@),
        ] && first@.next == (NextView::Look { wait: false }),
{
}

}
