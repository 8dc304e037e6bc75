use ocluster::cli::{
    confirm_removal, exit_code, health_lines, init_config_with, split_node_spec, OutputFormat,
    OutputWriter,
};
use ocluster::config::ConfigError;
use ocluster::error::ControllerError;
use ocluster::mock::{MockConfig, MockEndpoint, MockOllama, MockReply};
use ocluster::model_mode::ModelMode;
use ocluster::protocol::NodeSummary;
use ocluster::state::{AdminState, NodeRuntimeState};
use ocluster::tui::{
    truncate, App, DashboardCommand, DashboardData, KeyCode, KeyEvent, KeyModifiers,
    PendingAction, Screen,
};

#[test]
fn exit_codes_by_message() {
    assert_eq!(exit_code("configuration error: bad"), 3);
    assert_eq!(exit_code("service unavailable"), 4);
    assert_eq!(exit_code("failed to connect"), 4);
    assert_eq!(exit_code("node not found: x"), 5);
    assert_eq!(exit_code("operation rejected: y"), 6);
    assert_eq!(exit_code("boom"), 1);
    assert_eq!(exit_code("configuration not found"), 3);
}

#[test]
fn node_specs_split_at_first_at() {
    assert_eq!(
        split_node_spec("gpu-01@http://127.0.0.1:11435"),
        Some(("gpu-01".to_string(), "http://127.0.0.1:11435".to_string()))
    );
    assert_eq!(split_node_spec("a@b@c"), Some(("a".to_string(), "b@c".to_string())));
    assert_eq!(split_node_spec("nourl"), None);
}

#[test]
fn init_builds_config_with_nodes() {
    let c = init_config_with(
        Some("0.0.0.0:1".into()),
        None,
        Some("/tmp/c.db".into()),
        &["gpu-01@http://10.0.0.1:11434".to_string()],
    )
    .unwrap();
    assert_eq!(c.inference.listen, "0.0.0.0:1");
    assert_eq!(c.management.listen, "127.0.0.1:11600");
    assert_eq!(c.database.path, "/tmp/c.db");
    assert_eq!(c.nodes.len(), 1);
    assert_eq!(c.nodes[0].name, "gpu-01");
    assert_eq!(c.nodes[0].url, "http://10.0.0.1:11434");
    assert_eq!(c.nodes[0].model_mode, ModelMode::Discover);
    assert_eq!(c.nodes[0].max_concurrent, 8);
    let e = init_config_with(None, None, None, &["bad".to_string()]).unwrap_err();
    assert_eq!(e, "node spec must be name@url (e.g. gpu-01@http://127.0.0.1:11435)");
}

#[test]
fn removal_needs_confirmation() {
    assert!(confirm_removal(false, false).is_err());
    assert!(confirm_removal(true, false).is_ok());
    assert!(confirm_removal(false, true).is_ok());
}

fn summary(name: &str, state: NodeRuntimeState) -> NodeSummary {
    NodeSummary {
        name: name.into(),
        url: "http://x".into(),
        admin_state: AdminState::Enabled,
        runtime_state: state,
        ollama_version: None,
        active_requests: 0,
        model_count: 0,
        loaded_models: 0,
        last_contact: None,
    }
}

#[test]
fn health_lines_list_unavailable_nodes() {
    assert_eq!(health_lines(&[]), vec!["No nodes registered".to_string()]);
    let nodes = vec![
        summary("a", NodeRuntimeState::Ready),
        summary("b", NodeRuntimeState::Unavailable),
        summary("c", NodeRuntimeState::Unavailable),
    ];
    assert_eq!(
        health_lines(&nodes),
        vec!["UNAVAILABLE: b".to_string(), "UNAVAILABLE: c".to_string()]
    );
    assert!(health_lines(&[summary("a", NodeRuntimeState::Ready)]).is_empty());
}

#[test]
fn output_writer_keeps_format() {
    assert_eq!(OutputWriter::new(OutputFormat::Yaml).format(), OutputFormat::Yaml);
    assert!(OutputWriter::new(OutputFormat::default()).writes_table());
    assert!(!OutputWriter::new(OutputFormat::Json).writes_table());
}

#[test]
fn controller_error_messages() {
    assert_eq!(ControllerError::NodeNotFound("a".into()).message(), "node not found: a");
    assert_eq!(ControllerError::Rejected("b".into()).message(), "operation rejected: b");
    assert_eq!(ControllerError::Other("c".into()).message(), "c");
    assert_eq!(
        ControllerError::Config(ConfigError::Io("x".into())).message(),
        "configuration error: io error: x"
    );
}

#[test]
fn mock_replies() {
    let m = MockOllama::new(MockConfig::default());
    assert_eq!(m.config().version, "0.5.0");
    assert!(matches!(m.reply(MockEndpoint::Generate, r#"{"stream":true}"#), MockReply::Stream));
    match m.reply(MockEndpoint::Chat, r#"{"stream": false}"#) {
        MockReply::Json(b) => assert_eq!(b, MockConfig::default().chat_response),
        other => panic!("unexpected {other:?}"),
    }
    let mut cfg = MockConfig::default();
    cfg.error_status = Some(503);
    let m = MockOllama::new(cfg.clone());
    assert!(matches!(m.reply(MockEndpoint::Generate, ""), MockReply::Status(503)));
    assert!(matches!(m.reply(MockEndpoint::Embed, ""), MockReply::Status(500)));
    cfg.error_status = Some(42);
    let m = MockOllama::new(cfg);
    assert!(matches!(m.reply(MockEndpoint::Chat, ""), MockReply::Status(500)));
}

fn key(c: char) -> KeyEvent {
    KeyEvent {
        code: KeyCode::Char(c),
        modifiers: KeyModifiers { control: false, shift: false, alt: false },
    }
}

fn code(k: KeyCode) -> KeyEvent {
    KeyEvent { code: k, modifiers: KeyModifiers { control: false, shift: false, alt: false } }
}

#[test]
fn tabs_cycle_through_screens() {
    let mut app = App::new(100_000);
    assert_eq!(Screen::all().len(), 7);
    assert_eq!(Screen::NodeDetail.label(), "Node");
    app.handle_key(code(KeyCode::Tab));
    assert_eq!(app.screen, Screen::Nodes);
    app.handle_key(code(KeyCode::BackTab));
    app.handle_key(code(KeyCode::BackTab));
    assert_eq!(app.screen, Screen::Help);
    for _ in 0..7 {
        app.next_screen(true);
    }
    assert_eq!(app.screen, Screen::Help);
}

#[test]
fn refresh_timing() {
    let mut app = App::new(100_000);
    assert!(app.should_refresh(100_000));
    app.refreshed(100_000);
    assert!(!app.should_refresh(101_999));
    assert!(app.should_refresh(102_000));
    app.handle_key(key('r'));
    assert!(app.should_refresh(100_001));
}

fn data_with_nodes(names: &[&str]) -> DashboardData {
    let mut d = DashboardData::default();
    for n in names {
        d.nodes.push(summary(n, NodeRuntimeState::Ready));
    }
    d
}

#[test]
fn selection_stays_in_list() {
    let mut app = App::new(0);
    app.screen = Screen::Nodes;
    app.apply_refresh(data_with_nodes(&["a", "b"]));
    assert_eq!(app.status_message, "Connected — auto-refresh every 2s");
    app.handle_key(key('j'));
    app.handle_key(key('j'));
    app.handle_key(key('j'));
    assert_eq!(app.selected_index, 1);
    app.handle_key(code(KeyCode::Up));
    app.handle_key(key('k'));
    assert_eq!(app.selected_index, 0);
    let mut d = data_with_nodes(&[]);
    d.last_error = Some("down".into());
    app.selected_index = 1;
    app.apply_refresh(d);
    assert_eq!(app.selected_index, 0);
    assert_eq!(app.status_message, "Error: down");
}

#[test]
fn destructive_actions_need_confirmation() {
    let mut app = App::new(0);
    app.screen = Screen::Nodes;
    app.apply_refresh(data_with_nodes(&["gpu-01"]));
    assert!(matches!(app.handle_node_key(key('d')), DashboardCommand::Nothing));
    assert!(matches!(app.pending_action, Some(PendingAction::DisableNode { ref name }) if name == "gpu-01"));
    assert!(matches!(app.handle_node_key(key('n')), DashboardCommand::Nothing));
    assert!(app.pending_action.is_none());
    assert_eq!(app.status_message, "Action cancelled");
    app.handle_node_key(key('D'));
    match app.handle_node_key(key('y')) {
        DashboardCommand::Execute(PendingAction::DrainNode { name }) => assert_eq!(name, "gpu-01"),
        other => panic!("unexpected {other:?}"),
    }
    assert!(app.pending_action.is_none());
    let cmd = app.handle_node_key(key('E'));
    assert!(matches!(cmd, DashboardCommand::EnableNode(ref n) if n == "gpu-01"));
    app.refreshed(0);
    app.command_outcome(&cmd, Err("refused".into()));
    assert_eq!(app.status_message, "Enable failed: refused");
    assert!(app.force_refresh);
    let probe = DashboardCommand::ProbeNode("gpu-01".into());
    app.command_outcome(&probe, Ok(String::new()));
    assert_eq!(app.status_message, "Probe succeeded for gpu-01");
    assert!(matches!(app.handle_node_key(key('s')), DashboardCommand::SyncModels));
}

#[test]
fn quit_and_help_keys() {
    let mut app = App::new(0);
    app.handle_key(code(KeyCode::F(1)));
    assert_eq!(app.screen, Screen::Help);
    app.handle_key(KeyEvent {
        code: KeyCode::Char('c'),
        modifiers: KeyModifiers { control: true, shift: false, alt: false },
    });
    assert!(app.quit);
}

#[test]
fn enter_opens_node_detail() {
    let mut app = App::new(0);
    app.screen = Screen::Nodes;
    app.handle_key(code(KeyCode::Enter));
    assert_eq!(app.screen, Screen::Nodes);
    app.apply_refresh(data_with_nodes(&["gpu-01"]));
    app.refreshed(0);
    app.handle_key(code(KeyCode::Enter));
    assert_eq!(app.screen, Screen::NodeDetail);
    assert!(app.force_refresh);
    assert_eq!(app.detail_target().as_deref(), Some("gpu-01"));
}

#[test]
fn truncate_cuts_long_text() {
    assert_eq!(truncate("abc", 12), "abc");
    assert_eq!(truncate("0123456789abcdef", 12), "0123456789a…");
}
