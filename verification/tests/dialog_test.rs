use acpbridge::acp_client::{
    AcpCommand, CommandReply, SessionConfigOptionChoice, SessionConfigOptionState,
};
use acpbridge::agent_session::{client_failure, AgentSession, AgentSessionConfig};
use acpbridge::channel::{ChatId, OutgoingContent};
use acpbridge::config::{AgentConfig, BotConfig};
use acpbridge::dialog::{format_config_options, Dialog, Event, Next, Step};
use acpbridge::message::{IngressContent, IngressMessage};
use acpbridge::option_map::OptionMap;

fn plain() -> BotConfig {
    BotConfig {
        name: "bot".to_string(),
        description: None,
        agent: AgentConfig { command: "agent".to_string(), args: vec![] },
        working_dir: None,
        model: None,
        mode: None,
        config_options: OptionMap::new(),
        instructions: None,
        show_thinking: true,
        show_auto_approved: false,
    }
}

fn configured() -> BotConfig {
    let mut config = plain();
    config.model = Some("m1".to_string());
    config.mode = Some("plan".to_string());
    config.config_options.insert("z".to_string(), "2".to_string());
    config.config_options.insert("effort".to_string(), "high".to_string());
    config.instructions = Some("Be brief.".to_string());
    config
}

fn said(step: &Step) -> Vec<String> {
    let mut r = Vec::new();
    for m in &step.say {
        r.push(match &m.content {
            OutgoingContent::Text(t) => format!("text {}", t),
            OutgoingContent::Error(t) => format!("error {}", t),
            _ => panic!("expected a text or an error"),
        });
    }
    r
}

fn asked(step: &Step) -> String {
    match &step.next {
        Next::Ask(cmd) => match cmd {
            AcpCommand::NewSession => "new".to_string(),
            AcpCommand::SetModel { model } => format!("model {}", model),
            AcpCommand::ChangeDirectory { path } => format!("cd {}", path),
            AcpCommand::GetModels => "models".to_string(),
            AcpCommand::SetMode { mode } => format!("mode {}", mode),
            AcpCommand::GetModes => "modes".to_string(),
            AcpCommand::SetConfigOption { config_id, value } => format!("set {}={}", config_id, value),
            AcpCommand::GetConfigOptions => "options".to_string(),
        },
        _ => panic!("expected a question"),
    }
}

fn look(connected: bool, failed: bool, finished: bool) -> Event {
    Event::Look { connected, failed, finished }
}

fn idle(config: &BotConfig) -> Dialog {
    let mut d = Dialog::new(config);
    let mut step = d.step(look(true, false, false));
    while let Next::Ask(_) = step.next {
        step = d.step(Event::Reply(CommandReply::Done));
    }
    assert!(matches!(step.next, Next::Listen));
    d
}

fn tell(d: &mut Dialog, text: &str) -> Step {
    d.step(Event::Message { content: IngressContent::Text(text.to_string()), connected: true })
}

fn command(d: &mut Dialog, name: &str, args: Option<&str>) -> Step {
    d.step(Event::Message {
        content: IngressContent::Command {
            name: name.to_string(),
            args: args.map(|s| s.to_string()),
        },
        connected: true,
    })
}

fn reply(d: &mut Dialog, r: CommandReply) -> Step {
    d.step(Event::Reply(r))
}

fn failed(why: &str) -> CommandReply {
    CommandReply::Failed(why.to_string())
}

fn names(available: &[&str], active: Option<&str>) -> CommandReply {
    CommandReply::Names {
        available: available.iter().map(|s| s.to_string()).collect(),
        active: active.map(|s| s.to_string()),
    }
}

#[test]
fn agents_have_time_to_come_up() {
    let mut d = Dialog::new(&plain());
    assert_eq!(said(&d.start()), vec!["text Agent is starting..."]);
    assert!(matches!(d.start().next, Next::Look { wait: false }));
    for _ in 0..100 {
        let step = d.step(look(false, false, false));
        assert!(step.say.is_empty());
        assert!(matches!(step.next, Next::Look { wait: true }));
    }
    let step = d.step(look(true, false, false));
    assert_eq!(said(&step), vec!["error Agent failed to connect within timeout"]);
    assert!(matches!(step.next, Next::Stop { abort: true }));
    let after = tell(&mut d, "hello?");
    assert!(after.say.is_empty());
    assert!(matches!(after.next, Next::Listen));
}

#[test]
fn agents_that_fail_are_given_up_without_a_word() {
    let mut d = Dialog::new(&plain());
    let step = d.step(look(false, true, false));
    assert!(step.say.is_empty());
    assert!(matches!(step.next, Next::Stop { abort: false }));
    let mut d = Dialog::new(&plain());
    assert!(matches!(d.step(look(false, false, true)).next, Next::Look { wait: false }));
    assert!(matches!(d.step(look(false, true, true)).next, Next::Stop { abort: false }));
}

#[test]
fn settings_are_made_in_order() {
    let mut d = Dialog::new(&configured());
    let step = d.step(look(true, false, false));
    assert_eq!(asked(&step), "model m1");
    let step = reply(&mut d, failed("no"));
    assert_eq!(said(&step), vec!["error Failed to apply configured model 'm1': no"]);
    assert_eq!(asked(&step), "mode plan");
    let step = reply(&mut d, failed("no"));
    assert_eq!(said(&step), vec!["error Failed to apply configured mode 'plan': no"]);
    assert_eq!(asked(&step), "set effort=high");
    let step = reply(&mut d, CommandReply::Done);
    assert!(step.say.is_empty());
    assert_eq!(asked(&step), "set z=2");
    let step = reply(&mut d, failed("no"));
    assert_eq!(said(&step), vec!["error Failed to apply configured option 'z=2': no"]);
    assert!(matches!(step.next, Next::Listen));
}

#[test]
fn instructions_come_with_the_first_text_only() {
    let mut d = idle(&configured());
    let step = command(&mut d, "help", None);
    assert!(matches!(step.next, Next::Listen));
    assert!(matches!(tell(&mut d, "one").next, Next::Prompt(p) if p == "Be brief.\n\none"));
    assert!(matches!(tell(&mut d, "two").next, Next::Prompt(p) if p == "two"));
    let mut d = idle(&plain());
    assert!(matches!(tell(&mut d, "one").next, Next::Prompt(p) if p == "one"));
}

#[test]
fn new_sessions_are_set_up_like_the_first() {
    let mut config = plain();
    config.model = Some("m1".to_string());
    let mut d = idle(&config);
    let step = command(&mut d, "new", None);
    assert_eq!(said(&step), vec!["text Starting new session..."]);
    assert_eq!(asked(&step), "new");
    let step = reply(&mut d, CommandReply::Session("s2".to_string()));
    assert!(step.say.is_empty());
    assert_eq!(asked(&step), "model m1");
    let step = reply(&mut d, failed("no"));
    assert_eq!(
        said(&step),
        vec!["error Failed to apply configured model 'm1': no", "text New session started: s2"]
    );
    let _ = command(&mut d, "new", None);
    let step = reply(&mut d, failed("full"));
    assert_eq!(said(&step), vec!["error Failed to start new session: full"]);
    assert!(matches!(tell(&mut d, "x").next, Next::Prompt(_)));
}

#[test]
fn models_and_modes_are_listed_and_switched() {
    let mut d = idle(&plain());
    let step = command(&mut d, "model", Some("gpt-4"));
    assert_eq!(said(&step), vec!["text Switching to model: gpt-4..."]);
    assert_eq!(asked(&step), "model gpt-4");
    assert_eq!(said(&reply(&mut d, CommandReply::Done)), vec!["text Model changed to: gpt-4"]);
    let _ = command(&mut d, "model", Some("x"));
    assert_eq!(said(&reply(&mut d, failed("no"))), vec!["error Failed to change model: no"]);

    assert_eq!(asked(&command(&mut d, "model", None)), "models");
    assert_eq!(
        said(&reply(&mut d, names(&["a", "b"], Some("b")))),
        vec!["text Available models:\n- a\n- b (current)"]
    );
    let _ = command(&mut d, "model", None);
    assert_eq!(said(&reply(&mut d, names(&[], None))), vec!["text No models available."]);
    let _ = command(&mut d, "model", None);
    assert_eq!(said(&reply(&mut d, failed("no"))), vec!["error Failed to get models: no"]);

    let step = command(&mut d, "mode", Some("plan"));
    assert_eq!(said(&step), vec!["text Switching to mode: plan..."]);
    assert_eq!(asked(&step), "mode plan");
    assert_eq!(said(&reply(&mut d, CommandReply::Done)), vec!["text Mode changed to: plan"]);
    let _ = command(&mut d, "mode", Some("x"));
    assert_eq!(said(&reply(&mut d, failed("no"))), vec!["error Failed to change mode: no"]);
    assert_eq!(asked(&command(&mut d, "mode", None)), "modes");
    assert_eq!(
        said(&reply(&mut d, names(&["a"], None))),
        vec!["text Available modes:\n- a"]
    );
    let _ = command(&mut d, "mode", None);
    assert_eq!(said(&reply(&mut d, names(&[], None))), vec!["text No modes available."]);
    let _ = command(&mut d, "mode", None);
    assert_eq!(said(&reply(&mut d, failed("no"))), vec!["error Failed to get modes: no"]);
}

#[test]
fn options_are_listed_and_set() {
    let mut d = idle(&plain());
    assert_eq!(asked(&command(&mut d, "config", None)), "options");
    assert_eq!(said(&reply(&mut d, CommandReply::Options(vec![]))), vec!["text No config options available."]);
    assert_eq!(asked(&command(&mut d, "config", Some("  "))), "options");
    assert_eq!(said(&reply(&mut d, failed("no"))), vec!["error Failed to get config options: no"]);
    assert_eq!(said(&command(&mut d, "config", Some(" effort "))), vec!["error Usage: /config [id value]"]);
    let step = command(&mut d, "config", Some("  effort   very \t high "));
    assert_eq!(said(&step), vec!["text Setting config option effort=very high..."]);
    assert_eq!(asked(&step), "set effort=very high");
    assert_eq!(said(&reply(&mut d, CommandReply::Done)), vec!["text Config option changed: effort=very high"]);
    let _ = command(&mut d, "config", Some("effort low"));
    assert_eq!(said(&reply(&mut d, failed("no"))), vec!["error Failed to change config option 'effort': no"]);
}

#[test]
fn options_read_as_a_list() {
    let options = vec![
        SessionConfigOptionState {
            id: "effort".to_string(),
            name: "Effort".to_string(),
            category: Some("thought_level".to_string()),
            current_value: Some("low".to_string()),
            choices: vec![
                SessionConfigOptionChoice {
                    value: "low".to_string(),
                    name: "Low".to_string(),
                    group: None,
                },
                SessionConfigOptionChoice {
                    value: "high".to_string(),
                    name: "High".to_string(),
                    group: Some("G".to_string()),
                },
            ],
        },
        SessionConfigOptionState {
            id: "x".to_string(),
            name: "X".to_string(),
            category: None,
            current_value: None,
            choices: vec![],
        },
    ];
    assert_eq!(
        format_config_options(&options),
        "Available config options:\n- effort [thought_level] current=low (Effort)\n  choices: low (Low), G/high (High)\n- x (X)"
    );
}

#[test]
fn directories_are_changed() {
    let mut d = idle(&plain());
    assert_eq!(said(&command(&mut d, "cd", None)), vec!["error Usage: /cd <path>"]);
    let step = command(&mut d, "cd", Some("/tmp"));
    assert!(matches!(step.next, Next::FindDirectory(p) if p == "/tmp"));
    assert_eq!(said(&d.step(Event::Directory(false))), vec!["error Directory not found: /tmp"]);
    let _ = command(&mut d, "cd", Some("/tmp"));
    let step = d.step(Event::Directory(true));
    assert_eq!(said(&step), vec!["text Changing directory to: /tmp..."]);
    assert_eq!(asked(&step), "cd /tmp");
    assert_eq!(
        said(&reply(&mut d, CommandReply::Session("s3".to_string()))),
        vec!["text Changed directory to: /tmp\nNew session: s3"]
    );
    let _ = command(&mut d, "cd", Some("/tmp"));
    let _ = d.step(Event::Directory(true));
    assert_eq!(said(&reply(&mut d, failed("no"))), vec!["error Failed to change directory: no"]);
}

#[test]
fn help_and_unknown_commands_are_answered() {
    let mut d = idle(&plain());
    assert_eq!(
        said(&command(&mut d, "help", None)),
        vec!["text Available commands:\n\
/new - Start a new session\n\
/model [name] - Switch model or list available models\n\
/mode [name] - Switch mode or list available modes\n\
/config [id value] - List config options or set one\n\
/cd <path> - Change working directory\n\
/bot [name] - Switch bot or list available bots\n\
/help - Show this help message"]
    );
    assert_eq!(
        said(&command(&mut d, "bot", None)),
        vec!["text Use /bot to list bots or /bot <name> to switch."]
    );
    assert_eq!(said(&command(&mut d, "xyz", Some("a"))), vec!["error Unknown command: /xyz"]);
}

#[test]
fn sessions_end() {
    let mut d = idle(&plain());
    let step = d.step(Event::Message { content: IngressContent::Text("x".to_string()), connected: false });
    assert_eq!(said(&step), vec!["error Agent disconnected"]);
    assert!(matches!(step.next, Next::Stop { abort: true }));
    let mut d = idle(&plain());
    let step = d.step(Event::Closed);
    assert!(step.say.is_empty());
    assert!(matches!(step.next, Next::Stop { abort: true }));
}

#[test]
fn answers_that_do_not_fit_are_dropped() {
    let mut d = idle(&plain());
    let _ = command(&mut d, "new", None);
    let step = reply(&mut d, CommandReply::Done);
    assert!(step.say.is_empty());
    assert!(matches!(tell(&mut d, "x").next, Next::Prompt(_)));
    let step = reply(&mut d, CommandReply::Done);
    assert!(step.say.is_empty());
}

#[test]
fn sessions_work_in_their_directory() {
    let mut config = plain();
    config.working_dir = Some("/work".to_string());
    let session = AgentSessionConfig {
        bot_config: config,
        channel_name: "ch".to_string(),
        chat_id: ChatId("1".to_string()),
    };
    let (mut session, client) = AgentSession::new(session, "/here");
    assert_eq!(client.get_working_dir(), "/work");
    assert!(client.show_thinking());
    assert!(!client.show_auto_approved());
    assert_eq!(said(&session.start()), vec!["text Agent is starting..."]);
    let _ = session.resume(look(true, false, false));
    let message = IngressMessage {
        channel_name: "ch".to_string(),
        chat_id: ChatId("1".to_string()),
        content: IngressContent::Text("hi".to_string()),
    };
    assert!(matches!(session.receive(Some(message), true).next, Next::Prompt(p) if p == "hi"));
    assert!(matches!(session.receive(None, true).next, Next::Stop { abort: true }));
}

#[test]
fn failures_are_told_unless_the_agent_was_connected() {
    assert!(client_failure(true, "x".to_string()).is_none());
    let told = client_failure(false, "x".to_string()).unwrap();
    assert!(matches!(told.content, OutgoingContent::Error(e) if e == "x"));
}
