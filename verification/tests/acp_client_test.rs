use acpbridge::acp_client::command::{
    after_session, begin_prompt, finish_new_session, finish_prompt, finish_set_config_option,
    finish_set_mode, finish_set_model, handle_command, send_prompt, settle_command, start_session,
    AgentRequest, ClientStep, CommandStep, Delivery,
};
use acpbridge::acp_client::options::{
    map_config_options, AgentOption, OptionCategory, OptionKind, SelectEntry, SelectGroup,
    SelectOptions,
};
use acpbridge::acp_client::output::STARTUP_OUTPUT_LIMIT;
use acpbridge::acp_client::state::{McpServer, SessionResponse};
use acpbridge::acp_client::stream::{
    extract_content_text, ContentBlock, EmbeddedResource, SessionUpdate, ToolCallStatus,
};
use acpbridge::acp_client::{
    AcpClient, AcpClientState, AcpCommand, CapturedOutput, CommandReply, SessionConfigOptionChoice,
    SessionConfigOptionState, StartupDiagnostics,
};
use acpbridge::channel::{OutgoingContent, OutgoingMessage};
use acpbridge::clock::SECOND;

#[test]
fn captured_output_marks_truncation() {
    let mut output = CapturedOutput::new();
    output.push(&vec![b'a'; STARTUP_OUTPUT_LIMIT + 10]);

    assert_eq!(output.bytes.len(), STARTUP_OUTPUT_LIMIT);
    assert!(output.truncated);
}

#[test]
fn startup_failure_message_includes_command_and_outputs() {
    let mut diagnostics = StartupDiagnostics::new(
        "kimi".to_string(),
        vec![
            "--stdio".to_string(),
            "--model".to_string(),
            "sonnet".to_string(),
        ],
    );

    diagnostics.stdout.push(b"usage: kimi --stdio\n");
    diagnostics.stderr.push(b"binary not configured\n");

    let message = diagnostics.format_failure("initializing the ACP session", "broken pipe");

    assert!(message.contains("Agent startup failed while initializing the ACP session"));
    assert!(message.contains("Command: kimi --stdio --model sonnet"));
    assert!(message.contains("stdout:\nusage: kimi --stdio"));
    assert!(message.contains("stderr:\nbinary not configured"));
}

#[test]
fn captured_output_keeps_the_beginning_however_it_arrives() {
    let all: Vec<u8> = (0..5000_u32).map(|n| (n % 251) as u8).collect();
    let mut pieces = CapturedOutput::new();
    for chunk in all.chunks(77) {
        pieces.push(chunk);
    }
    assert_eq!(pieces.bytes, all[..4096].to_vec());
    assert!(pieces.truncated);
    let mut exact = CapturedOutput::new();
    exact.push(&all[..4096]);
    exact.push(&[]);
    assert!(!exact.truncated);
    exact.push(b"x");
    assert!(exact.truncated);
}

#[test]
fn captured_output_is_rendered_as_text() {
    let mut output = CapturedOutput::new();
    assert_eq!(output.render(), None);
    output.push_line("  \n");
    assert_eq!(output.render(), None);
    output.push_line(" error: ");
    output.push(&[0xff]);
    assert_eq!(output.render(), Some("error: \u{fffd}".to_string()));
    output.truncated = true;
    assert_eq!(output.render(), Some("error: \u{fffd}\n...[truncated]".to_string()));
}

#[test]
fn startup_report_leaves_out_what_was_not_written() {
    let diagnostics = StartupDiagnostics::new("agent".to_string(), vec![]);
    assert_eq!(diagnostics.command_line(), "agent");
    assert_eq!(
        diagnostics.format_failure("spawning the agent process", "no such file"),
        "Agent startup failed while spawning the agent process: no such file\nCommand: agent"
    );
}

#[test]
fn test_session_config_option_types() {
    println!("\n=== Testing SessionConfigOption types ===");

    let option = SessionConfigOptionState {
        id: "model".to_string(),
        name: "Model".to_string(),
        category: Some("model".to_string()),
        current_value: Some("gpt-4".to_string()),
        choices: vec![
            SessionConfigOptionChoice {
                value: "gpt-4".to_string(),
                name: "GPT-4".to_string(),
                group: Some("OpenAI".to_string()),
            },
        ],
    };

    assert_eq!(option.id, "model");
    assert_eq!(option.current_value, Some("gpt-4".to_string()));
    assert_eq!(option.choices.len(), 1);
    println!("✅ SessionConfigOptionState works correctly");

    println!("✅ test_session_config_option_types: PASSED\n");
}

#[test]
fn test_acp_command_creation() {
    println!("\n=== Testing AcpCommand creation ===");

    let _cmd1 = AcpCommand::NewSession;
    println!("✅ AcpCommand::NewSession");

    let _cmd2 = AcpCommand::SetModel { model: "gpt-4".to_string() };
    println!("✅ AcpCommand::SetModel");

    let _cmd3 = AcpCommand::GetModels;
    println!("✅ AcpCommand::GetModels");

    let _cmd4 = AcpCommand::SetMode { mode: "agent".to_string() };
    println!("✅ AcpCommand::SetMode");

    let _cmd5 = AcpCommand::GetModes;
    println!("✅ AcpCommand::GetModes");

    let _cmd6 = AcpCommand::SetConfigOption {
        config_id: "reasoning_effort".to_string(),
        value: "high".to_string(),
    };
    println!("✅ AcpCommand::SetConfigOption");

    let _cmd7 = AcpCommand::GetConfigOptions;
    println!("✅ AcpCommand::GetConfigOptions");

    let _cmd8 = AcpCommand::ChangeDirectory { path: "/tmp".to_string() };
    println!("✅ AcpCommand::ChangeDirectory");

    println!("✅ test_acp_command_creation: ALL PASSED\n");
}

#[test]
fn test_acp_client_state_directly() {
    println!("\n=== Testing AcpClientState directly ===");

    let mut state = AcpClientState::new("/tmp/test".to_string(), true, false, None);

    // Test initial state
    assert_eq!(state.get_working_dir(), "/tmp/test");
    assert!(state.get_session_id().is_none());
    assert!(state.get_available_models().is_empty());
    assert!(state.get_available_modes().is_empty());
    println!("✅ Initial state correct");

    // Test updates
    state.set_session_id(Some("test-session".to_string()));
    state.set_available_models(vec!["gpt-4".to_string()]);
    state.set_active_model(Some("gpt-4".to_string()));
    state.set_available_modes(vec!["default".to_string()]);
    state.set_active_mode(Some("default".to_string()));
    state.set_working_dir("/new/path".to_string());

    assert_eq!(state.get_session_id().unwrap().to_string(), "test-session");
    assert_eq!(state.get_available_models().len(), 1);
    assert_eq!(state.get_active_model(), Some("gpt-4".to_string()));
    assert_eq!(state.get_working_dir(), "/new/path");
    println!("✅ State updates correct");

    println!("✅ test_acp_client_state_directly: ALL PASSED\n");
}

fn state() -> AcpClientState {
    AcpClientState::new("/work".to_string(), true, true, None)
}

fn options() -> Vec<AgentOption> {
    vec![
        AgentOption {
            id: "effort".to_string(),
            name: "Effort".to_string(),
            category: Some(OptionCategory::ThoughtLevel),
            kind: OptionKind::Select {
                current_value: "low".to_string(),
                options: SelectOptions::Ungrouped(vec![
                    SelectEntry { value: "low".to_string(), name: "Low".to_string() },
                    SelectEntry { value: "high".to_string(), name: "High".to_string() },
                ]),
            },
        },
        AgentOption {
            id: "model".to_string(),
            name: "Model".to_string(),
            category: Some(OptionCategory::Other("custom".to_string())),
            kind: OptionKind::Select {
                current_value: "m1".to_string(),
                options: SelectOptions::Grouped(vec![
                    SelectGroup {
                        name: "A".to_string(),
                        options: vec![SelectEntry { value: "m1".to_string(), name: "M1".to_string() }],
                    },
                    SelectGroup { name: "B".to_string(), options: vec![] },
                    SelectGroup {
                        name: "C".to_string(),
                        options: vec![SelectEntry { value: "m2".to_string(), name: "M2".to_string() }],
                    },
                ]),
            },
        },
        AgentOption {
            id: "odd".to_string(),
            name: "Odd".to_string(),
            category: None,
            kind: OptionKind::Unknown,
        },
    ]
}

fn response(id: &str) -> SessionResponse {
    SessionResponse {
        session_id: id.to_string(),
        models: Some(vec!["m1".to_string(), "m2".to_string()]),
        modes: None,
        config_options: Some(options()),
    }
}

#[test]
fn options_are_flattened() {
    let shown = map_config_options(&options());
    assert_eq!(shown.len(), 3);
    assert_eq!(shown[0].category, Some("thought_level".to_string()));
    assert_eq!(shown[0].current_value, Some("low".to_string()));
    assert_eq!(shown[0].choices.len(), 2);
    assert_eq!(shown[0].choices[1].group, None);
    assert_eq!(shown[1].category, Some("custom".to_string()));
    assert_eq!(shown[1].choices.len(), 2);
    assert_eq!(shown[1].choices[1].value, "m2");
    assert_eq!(shown[1].choices[1].group, Some("C".to_string()));
    assert_eq!(shown[2].category, None);
    assert_eq!(shown[2].current_value, None);
    assert!(shown[2].choices.is_empty());
}

#[test]
fn a_new_session_forgets_what_was_chosen() {
    let mut state = state();
    state.set_active_model(Some("old".to_string()));
    state.set_active_mode(Some("old".to_string()));
    state.set_available_modes(vec!["kept".to_string()]);
    match handle_command(&mut state, &AcpCommand::NewSession) {
        CommandStep::Ask(AgentRequest::NewSession { working_dir, mcp_servers }) => {
            assert_eq!(working_dir, "/work");
            assert!(mcp_servers.is_empty());
        }
        _ => panic!("expected a request"),
    }
    match finish_new_session(&mut state, Ok(response("s1"))) {
        CommandReply::Session(id) => assert_eq!(id, "s1"),
        _ => panic!("expected a session"),
    }
    match handle_command(&mut state, &AcpCommand::GetModels) {
        CommandStep::Answer(CommandReply::Names { available, active }) => {
            assert_eq!(available, vec!["m1", "m2"]);
            assert_eq!(active, None);
        }
        _ => panic!("expected names"),
    }
    match handle_command(&mut state, &AcpCommand::GetModes) {
        CommandStep::Answer(CommandReply::Names { available, active }) => {
            assert_eq!(available, vec!["kept"]);
            assert_eq!(active, None);
        }
        _ => panic!("expected names"),
    }
    match handle_command(&mut state, &AcpCommand::GetConfigOptions) {
        CommandStep::Answer(CommandReply::Options(options)) => assert_eq!(options.len(), 3),
        _ => panic!("expected options"),
    }
    match finish_new_session(&mut state, Err("boom".to_string())) {
        CommandReply::Failed(why) => assert_eq!(why, "Failed to create session: boom"),
        _ => panic!("expected a failure"),
    }
    assert_eq!(state.get_session_id(), Some("s1".to_string()));
}

#[test]
fn settings_need_a_session() {
    let mut state = state();
    for cmd in [
        AcpCommand::SetModel { model: "m".to_string() },
        AcpCommand::SetMode { mode: "m".to_string() },
        AcpCommand::SetConfigOption { config_id: "c".to_string(), value: "v".to_string() },
    ] {
        match handle_command(&mut state, &cmd) {
            CommandStep::Answer(CommandReply::Failed(why)) => assert_eq!(why, "No active session"),
            _ => panic!("expected a refusal"),
        }
    }
    state.set_session_id(Some("s".to_string()));
    match handle_command(&mut state, &AcpCommand::SetModel { model: "m".to_string() }) {
        CommandStep::Ask(AgentRequest::SetModel { session_id, model }) => {
            assert_eq!((session_id.as_str(), model.as_str()), ("s", "m"));
        }
        _ => panic!("expected a request"),
    }
    match handle_command(&mut state, &AcpCommand::SetMode { mode: "x".to_string() }) {
        CommandStep::Ask(AgentRequest::SetMode { session_id, mode }) => {
            assert_eq!((session_id.as_str(), mode.as_str()), ("s", "x"));
        }
        _ => panic!("expected a request"),
    }
    let set = AcpCommand::SetConfigOption { config_id: "c".to_string(), value: "v".to_string() };
    match handle_command(&mut state, &set) {
        CommandStep::Ask(AgentRequest::SetConfigOption { session_id, config_id, value }) => {
            assert_eq!((session_id.as_str(), config_id.as_str(), value.as_str()), ("s", "c", "v"));
        }
        _ => panic!("expected a request"),
    }
}

#[test]
fn settings_take_effect_when_the_agent_agrees() {
    let mut state = state();
    assert!(matches!(finish_set_model(&mut state, "m".to_string(), Ok(())), CommandReply::Done));
    assert_eq!(state.get_active_model(), Some("m".to_string()));
    match finish_set_model(&mut state, "n".to_string(), Err("no".to_string())) {
        CommandReply::Failed(why) => assert_eq!(why, "Failed to set model: no"),
        _ => panic!("expected a failure"),
    }
    assert_eq!(state.get_active_model(), Some("m".to_string()));
    assert!(matches!(finish_set_mode(&mut state, "x".to_string(), Ok(())), CommandReply::Done));
    assert_eq!(state.get_active_mode(), Some("x".to_string()));
    match finish_set_mode(&mut state, "y".to_string(), Err("no".to_string())) {
        CommandReply::Failed(why) => assert_eq!(why, "Failed to set mode: no"),
        _ => panic!("expected a failure"),
    }
    assert!(matches!(finish_set_config_option(&mut state, "c", Ok(options())), CommandReply::Done));
    assert_eq!(state.get_available_config_options().len(), 3);
    match finish_set_config_option(&mut state, "c", Err("no".to_string())) {
        CommandReply::Failed(why) => assert_eq!(why, "Failed to set config option 'c': no"),
        _ => panic!("expected a failure"),
    }
}

#[test]
fn a_changed_directory_stays_changed() {
    let mut state = AcpClientState::new(
        "/work".to_string(),
        true,
        true,
        Some(vec![McpServer { name: "mcp".to_string(), url: "http://x".to_string() }]),
    );
    match handle_command(&mut state, &AcpCommand::ChangeDirectory { path: "/new".to_string() }) {
        CommandStep::Ask(AgentRequest::NewSession { working_dir, mcp_servers }) => {
            assert_eq!(working_dir, "/new");
            assert_eq!(mcp_servers.len(), 1);
            assert_eq!(mcp_servers[0].url, "http://x");
        }
        _ => panic!("expected a request"),
    }
    let _reply = finish_new_session(&mut state, Err("no".to_string()));
    assert_eq!(state.get_working_dir(), "/new");
}

#[test]
fn prompts_go_to_the_session() {
    let mut state = state();
    let refused = begin_prompt(&state).unwrap_err();
    assert!(matches!(&refused.content, OutgoingContent::Error(e) if e == "No active session"));
    let ready = start_session(&mut state, &response("s1"));
    assert!(matches!(&ready.content, OutgoingContent::Text(t) if t == "Agent connected and ready!"));
    assert_eq!(begin_prompt(&state).unwrap(), "s1");
    assert!(send_prompt(&state, Delivery::Sent).is_ok());
    let (told, why) = send_prompt(&state, Delivery::NotConnected).unwrap_err();
    assert!(matches!(&told.content, OutgoingContent::Error(e) if e == "Agent not connected"));
    assert_eq!(why, "ACP connection not available");
    let (told, why) = send_prompt(&state, Delivery::Closed).unwrap_err();
    assert!(matches!(&told.content, OutgoingContent::Error(e) if e == "Failed to send prompt"));
    assert_eq!(why, "Failed to send prompt to channel");
}

#[test]
fn commands_that_do_not_arrive_fail() {
    match settle_command(false, Some(CommandReply::Done)) {
        CommandReply::Failed(why) => assert_eq!(why, "Failed to send command: channel closed"),
        _ => panic!("expected a failure"),
    }
    match settle_command(true, None) {
        CommandReply::Failed(why) => assert_eq!(why, "Command response channel closed"),
        _ => panic!("expected a failure"),
    }
    assert!(matches!(settle_command(true, Some(CommandReply::Done)), CommandReply::Done));
}

fn kinds(sent: &Vec<OutgoingMessage>) -> Vec<String> {
    let mut r = Vec::new();
    for m in sent {
        r.push(match &m.content {
            OutgoingContent::Text(t) => format!("text {}", t),
            OutgoingContent::StreamChunk(t) => format!("chunk {}", t),
            OutgoingContent::StreamEnd => "end".to_string(),
            OutgoingContent::Error(t) => format!("error {}", t),
            OutgoingContent::Mention { .. } => "mention".to_string(),
        });
    }
    r
}

fn chunk(text: &str) -> SessionUpdate {
    SessionUpdate::AgentMessageChunk(ContentBlock::Text(text.to_string()))
}

#[test]
fn streams_end_once_and_only_when_running() {
    let mut state = state();
    let mut client = AcpClient::new(0);
    assert!(kinds(&client.session_notification(&mut state, &SessionUpdate::Plan, 1)).is_empty());
    assert_eq!(kinds(&client.session_notification(&mut state, &chunk("a"), 2)), vec!["chunk a"]);
    assert!(kinds(&client.session_notification(&mut state, &SessionUpdate::UsageUpdate, 3)).is_empty());
    assert_eq!(kinds(&client.session_notification(&mut state, &chunk("b"), 4)), vec!["chunk b"]);
    let failed = SessionUpdate::ToolCallUpdate {
        status: Some(ToolCallStatus::Failed),
        raw_output: Some("{}".to_string()),
    };
    assert_eq!(
        kinds(&client.session_notification(&mut state, &failed, 5)),
        vec!["end", "error Tool failed: {}"]
    );
    let done = SessionUpdate::ToolCallUpdate {
        status: Some(ToolCallStatus::Completed),
        raw_output: Some("{}".to_string()),
    };
    assert!(kinds(&client.session_notification(&mut state, &done, 6)).is_empty());
    assert_eq!(kinds(&client.session_notification(&mut state, &chunk("c"), 7)), vec!["chunk c"]);
    assert_eq!(kinds(&client.session_notification(&mut state, &SessionUpdate::Other, 8)), vec!["end"]);
    assert!(kinds(&client.end_streaming_if_active()).is_empty());
}

#[test]
fn silent_streams_are_ended_after_a_minute() {
    let mut state = state();
    let mut client = AcpClient::new(0);
    let _sent = client.session_notification(&mut state, &chunk("a"), 10 * SECOND);
    assert!(client.check_stream_timeout(70 * SECOND).is_empty());
    assert_eq!(kinds(&client.check_stream_timeout(70 * SECOND + 1)), vec!["end"]);
    assert!(client.check_stream_timeout(200 * SECOND).is_empty());
}

#[test]
fn thoughts_can_be_hidden() {
    let thought = SessionUpdate::AgentThoughtChunk(ContentBlock::Text("hm".to_string()));
    let mut open = state();
    let mut client = AcpClient::new(0);
    assert_eq!(kinds(&client.session_notification(&mut open, &thought, 1)), vec!["chunk hm"]);
    let mut hidden = AcpClientState::new("/".to_string(), false, false, None);
    let mut client = AcpClient::new(0);
    assert!(client.session_notification(&mut hidden, &thought, 1).is_empty());
    assert!(client.end_streaming_if_active().is_empty());
}

#[test]
fn reports_change_what_is_known() {
    let mut state = state();
    let mut client = AcpClient::new(0);
    let mode = SessionUpdate::CurrentModeUpdate("plan".to_string());
    assert!(client.session_notification(&mut state, &mode, 1).is_empty());
    assert_eq!(state.get_active_mode(), Some("plan".to_string()));
    let update = SessionUpdate::ConfigOptionUpdate(options());
    assert!(client.session_notification(&mut state, &update, 2).is_empty());
    assert_eq!(state.get_available_config_options().len(), 3);
    assert!(client.session_notification(&mut state, &SessionUpdate::SessionInfoUpdate, 3).is_empty());
    assert!(client.session_notification(&mut state, &SessionUpdate::AvailableCommandsUpdate, 4).is_empty());
}

#[test]
fn prompts_close_their_stream_and_report_errors() {
    let mut state = state();
    let mut client = AcpClient::new(0);
    let _sent = client.session_notification(&mut state, &chunk("a"), 1);
    let sent = finish_prompt(&mut client, &state, &Some("timeout".to_string()));
    assert_eq!(kinds(&sent), vec!["end", "error Prompt failed: timeout"]);
    assert!(finish_prompt(&mut client, &state, &None).is_empty());
}

#[test]
fn permission_goes_to_the_first_option() {
    let state = state();
    let offered = vec!["yes".to_string(), "no".to_string()];
    let (chosen, notice) = AcpClient::request_permission(&state, &Some("Edit".to_string()), &offered);
    assert_eq!(chosen, "yes");
    assert!(matches!(&notice.unwrap().content, OutgoingContent::Text(t) if t == "[Auto-approved tool: Edit]"));
    let (chosen, notice) = AcpClient::request_permission(&state, &None, &vec![]);
    assert_eq!(chosen, "allow");
    assert!(matches!(&notice.unwrap().content, OutgoingContent::Text(t) if t == "[Auto-approved tool: unknown]"));
    let quiet = AcpClientState::new("/".to_string(), true, false, None);
    assert!(AcpClient::request_permission(&quiet, &None, &offered).1.is_none());
}

#[test]
fn content_reads_as_text() {
    let uri = "file:///a".to_string();
    for (content, expected) in [
        (ContentBlock::Text("t".to_string()), Some("t")),
        (ContentBlock::Image, Some("<image>")),
        (ContentBlock::Audio, Some("<audio>")),
        (ContentBlock::ResourceLink { uri: uri.clone() }, Some("[Resource: file:///a]")),
        (ContentBlock::Resource(EmbeddedResource::Text { uri }), Some("[Resource: file:///a]")),
        (ContentBlock::Resource(EmbeddedResource::Blob), Some("[Resource: binary data]")),
        (ContentBlock::Resource(EmbeddedResource::Unknown), Some("[Resource]")),
        (ContentBlock::Unknown, None),
    ] {
        assert_eq!(extract_content_text(&content), expected.map(|s| s.to_string()));
    }
}

#[test]
fn agents_are_started_again_once_they_were_connected() {
    let diagnostics = StartupDiagnostics::new("agent".to_string(), vec![]);
    assert!(matches!(after_session(&diagnostics, true, &None, 1), ClientStep::Finished));
    match after_session(&diagnostics, true, &Some("x".to_string()), 32) {
        ClientStep::Restart { delay, next } => assert_eq!((delay, next), (32, 60)),
        _ => panic!("expected a restart"),
    }
    match after_session(&diagnostics, false, &Some("x".to_string()), 1) {
        ClientStep::StartupFailed(why) => assert_eq!(
            why,
            "Agent startup failed while initializing the ACP session: x\nCommand: agent"
        ),
        _ => panic!("expected a failure"),
    }
}
