use blackholes::app::{AgentLabels, AppSession, AppToastTarget, BlackholesApp, UpdateState};
use blackholes::bridge::{read_bridge_message, BridgeMessage};
use blackholes::clock::Time;
use blackholes::delegation::{
    read_agent_command, AgentCommand, AgentCommandFailure, StartTaskAgentsRequest, TaskAgentOutcome,
    TaskAgentRequest, TaskTerminalStep,
};
use blackholes::dock::{remove_terminal_node, terminals_in, DockAxis, DockNode};
use blackholes::effects::Effect;
use blackholes::ids::id_text;
use blackholes::model::{
    AgentKind, AgentProfile, AppTheme, Language, ProjectTask, RecordedSession, Repository,
    SessionState, TaskRepository, TerminalDescriptor, Workspace, WorkspaceColor, WorkspaceLayout,
};
use blackholes::startup::{Startup, StartupFailure};
use blackholes::terminals::{AgentTerminalSignal, AgentTerminalSignalKind};

const WORKSPACE: u128 = 1;
const REPOSITORY: u128 = 11;
const TASK: u128 = 21;
const START: Time = Time { seconds: 0, nanoseconds: 0 };

fn provider_name() -> String {
    format!("{:?}", AgentKind::Claude).to_lowercase()
}

fn labels() -> AgentLabels {
    AgentLabels {
        shell: "Terminal".to_string(),
        claude: format!("{:?}", AgentKind::Claude),
        codex: "Codex".to_string(),
        gemini: "Gemini".to_string(),
        open_code: "OpenCode".to_string(),
        antigravity: "Antigravity".to_string(),
        claude_name: provider_name(),
        instructions_file: format!("{}.md", provider_name().to_uppercase()),
    }
}

fn session() -> AppSession {
    AppSession {
        selected_workspace_id: None,
        selected_task_id: None,
        selected_repository_id: None,
        expanded_workspace_ids: Vec::new(),
        expanded_task_ids: Vec::new(),
        unseen_task_ids: Vec::new(),
        terminals: Vec::new(),
        docks: Vec::new(),
        agent_order: Vec::new(),
        language: Language::English,
        theme: AppTheme::Dark,
        navigation_expansion_initialized: false,
    }
}

fn workspace() -> Workspace {
    Workspace {
        id: WORKSPACE,
        label: "Shop".to_string(),
        root_path: Some("/p/shop".to_string()),
        repositories: vec![Repository {
            id: REPOSITORY,
            name: "web".to_string(),
            path: "/p/shop/web".to_string(),
            branch: Some("main".to_string()),
        }],
        icon: "rocket".to_string(),
        color: WorkspaceColor::Mint,
        layout: WorkspaceLayout::SingleRepository,
        ignored_repository_paths: Vec::new(),
        updated_at: START,
    }
}

fn task() -> ProjectTask {
    ProjectTask {
        id: TASK,
        workspace_id: WORKSPACE,
        title: "Login".to_string(),
        icon: "list-todo".to_string(),
        color: WorkspaceColor::Sky,
        branch: Some("feature/login".to_string()),
        repositories: vec![TaskRepository {
            repository_id: REPOSITORY,
            worktree_path: "/w/login/web".to_string(),
            branch: "feature/login".to_string(),
        }],
        sessions: Vec::new(),
        worktree_root_path: "/w/login".to_string(),
        sort_order: 0,
        created_at: START,
        updated_at: START,
    }
}

fn startup(session: AppSession) -> Startup {
    Startup {
        workspaces: Ok(vec![workspace()]),
        tasks: Ok(vec![task()]),
        session,
        task_workspaces: "/w".to_string(),
        agent_labels: labels(),
        update_state: UpdateState {
            enabled: true,
            error: String::new(),
            restart: false,
            busy: false,
            available: String::new(),
        },
        git_available: true,
        has_workspace_webview: true,
        has_navigation_webview: true,
        failures: Vec::new(),
    }
}

fn application() -> BlackholesApp {
    let mut app = BlackholesApp::new(startup(session()));
    app.take_effects();
    app
}

fn names(app: &mut BlackholesApp) -> Vec<String> {
    let mut result = Vec::new();
    for effect in app.take_effects() {
        let text = format!("{:?}", effect);
        let end = text.find(|c: char| !c.is_alphanumeric()).unwrap_or(text.len());
        result.push(text[..end].to_string());
    }
    result
}

fn terminal(id: u128, task_id: Option<u128>, agent: AgentKind) -> TerminalDescriptor {
    TerminalDescriptor {
        id,
        workspace_id: WORKSPACE,
        task_id,
        repository_id: None,
        agent,
        label: "zsh".to_string(),
        cwd: "/p/shop".to_string(),
        state: SessionState::Idle,
        codex_session: None,
        claude_session: None,
        agent_config_dir: None,
        created_at: START,
    }
}

fn with_terminals() -> BlackholesApp {
    let mut app = application();
    app.finish_new_terminal(terminal(101, None, AgentKind::Shell), Ok(()));
    app.finish_new_terminal(terminal(102, Some(TASK), AgentKind::Codex), Ok(()));
    app.take_effects();
    app
}

fn docked(app: &BlackholesApp) -> Vec<u128> {
    let mut ids = Vec::new();
    for entry in &app.session.docks {
        for tab in &entry.dock.tabs {
            ids.extend(terminals_in(&tab.root));
        }
    }
    ids
}

#[test]
fn a_new_terminal_stands_in_front_of_its_dock() {
    let mut app = application();
    app.session.selected_workspace_id = Some(WORKSPACE);
    app.new_terminal(AgentKind::Codex, Some("/p/shop".to_string()), None);
    let effects = app.take_effects();
    let descriptor = match effects.into_iter().last() {
        Some(Effect::SpawnTerminal { descriptor }) => descriptor,
        other => panic!("{:?}", other),
    };
    assert_eq!(descriptor.label, "Codex");
    assert_eq!(descriptor.cwd, "/p/shop");
    assert_eq!(descriptor.state, SessionState::Idle);
    assert_eq!(descriptor.id >> 76 & 0xf, 4);
    assert!(descriptor.created_at.seconds > 1_600_000_000);
    assert!(descriptor.created_at.nanoseconds < 1_000_000_000);
    let id = descriptor.id;
    app.finish_new_terminal(descriptor, Ok(()));
    assert_eq!(app.session.terminals.len(), 1);
    assert_eq!(app.running, vec![id]);
    assert_eq!(app.selected_terminal_id(), Some(id));
    assert_eq!(app.session.expanded_workspace_ids, vec![WORKSPACE]);
    assert_eq!(names(&mut app), vec!["PersistSession", "FocusTerminal", "Redraw"]);
}

#[test]
fn a_terminal_that_cannot_start_is_reported() {
    let mut app = application();
    app.finish_new_terminal(terminal(101, None, AgentKind::Shell), Err("no pty".to_string()));
    let status = app.status.as_ref().unwrap();
    assert_eq!(status.message, "Could not open terminal: no pty");
    assert!(status.error);
    assert!(app.session.terminals.is_empty());
}

#[test]
fn a_closed_terminal_is_nowhere_any_more() {
    let mut app = with_terminals();
    assert_eq!(docked(&app), vec![101, 102]);
    app.close_terminal(102);
    assert_eq!(docked(&app), vec![101]);
    assert_eq!(app.running, vec![101]);
    assert_eq!(app.session.terminals.len(), 1);
    assert_eq!(app.tasks[0].sessions[0].state, SessionState::Exited);
    assert!(app.tasks[0].sessions[0].exited_at.is_some());
}

#[test]
fn every_dock_shows_terminals_of_the_session() {
    let mut app = with_terminals();
    app.focus_terminal(101);
    app.update_terminal_title(101, "work", false);
    app.close_terminal(101);
    for id in docked(&app) {
        assert!(app.session.terminals.iter().any(|terminal| terminal.id == id));
    }
    app.finish_removed_task(TASK, Ok(()), Ok(()));
    assert!(docked(&app).is_empty());
    assert!(app.session.terminals.is_empty());
}

#[test]
fn one_dock_for_each_key() {
    let mut app = with_terminals();
    app.finish_new_terminal(terminal(103, None, AgentKind::Shell), Ok(()));
    assert_eq!(app.session.docks.len(), 2);
    assert_eq!(app.session.docks[0].dock.tabs.len(), 2);
}

#[test]
fn a_shell_closes_at_once_and_an_agent_after_a_question() {
    let mut app = with_terminals();
    app.request_close_terminal(101);
    assert_eq!(app.session.terminals.len(), 1);
    app.take_effects();
    app.request_close_terminal(102);
    assert_eq!(app.session.terminals.len(), 1);
    assert_eq!(app.modals.agent_removal, Some(102));
    assert_eq!(names(&mut app), vec!["ShowModal", "ModalVisibility", "Redraw"]);
}

#[test]
fn an_agent_that_waits_is_announced_once() {
    let mut app = with_terminals();
    let toast = app.handle_agent_attention(102).unwrap();
    assert_eq!(toast.title, "Codex needs your attention");
    assert_eq!(toast.message, "Waiting for your response in Login");
    assert_eq!(app.app_toasts.len(), 1);
    assert_eq!(app.session.terminals[1].state, SessionState::Attention);
    assert!(app.handle_agent_attention(102).is_none());
    assert_eq!(app.app_toasts.len(), 1);
    assert!(app.handle_agent_attention(101).is_none());
    app.focus_terminal(102);
    assert!(app.app_toasts.is_empty());
    assert_eq!(app.session.terminals[1].state, SessionState::Idle);
}

#[test]
fn signals_change_the_state_of_a_terminal() {
    let mut app = with_terminals();
    let working = AgentTerminalSignal {
        agent: Some(AgentKind::Gemini),
        kind: AgentTerminalSignalKind::Working,
    };
    assert!(app.handle_agent_signal(101, working).is_none());
    assert_eq!(app.session.terminals[0].agent, AgentKind::Gemini);
    assert_eq!(app.session.terminals[0].state, SessionState::Working);
    let attention = AgentTerminalSignal {
        agent: None,
        kind: AgentTerminalSignalKind::Attention,
    };
    assert!(app.handle_agent_signal(101, attention).is_some());
    assert_eq!(app.session.terminals[0].state, SessionState::Attention);
}

#[test]
fn a_title_names_the_terminal_and_its_tab() {
    let mut app = with_terminals();
    app.update_terminal_title(101, "gemini - shop", false);
    assert_eq!(app.session.terminals[0].label, "gemini - shop");
    assert_eq!(app.session.terminals[0].agent, AgentKind::Gemini);
    assert_eq!(app.session.docks[0].dock.tabs[0].title, "gemini - shop");
    app.update_terminal_title(101, "vim", true);
    assert_eq!(app.session.terminals[0].agent, AgentKind::Shell);
}

#[test]
fn a_terminal_that_exits_is_noted() {
    let mut app = with_terminals();
    app.terminal_exited(101);
    assert_eq!(app.session.terminals[0].state, SessionState::Exited);
    assert_eq!(names(&mut app)[0], "InspectRepositories");
}

#[test]
fn the_terminals_of_a_removed_task_are_stopped() {
    let mut app = with_terminals();
    assert!(app.start_remove_task(TASK));
    assert_eq!(app.busy.as_deref(), Some("Deleting task worktrees…"));
    assert_eq!(docked(&app), vec![101]);
    app.take_effects();
    app.finish_removed_task(TASK, Ok(()), Ok(()));
    assert!(app.tasks.is_empty());
    assert!(app.busy.is_none());
    assert_eq!(
        app.status.as_ref().unwrap().message,
        "Task, terminals, and worktrees removed; Git branches were preserved"
    );
    assert!(!app.start_remove_task(TASK));
}

#[test]
fn a_task_that_cannot_be_removed_stays() {
    let mut app = application();
    app.finish_removed_task(TASK, Err("busy".to_string()), Ok(()));
    assert_eq!(app.status.as_ref().unwrap().message, "Could not remove the task: busy");
    app.finish_removed_task(TASK, Ok(()), Err("locked".to_string()));
    assert_eq!(app.status.as_ref().unwrap().message, "Could not remove the task record: locked");
    assert_eq!(app.tasks.len(), 1);
}

#[test]
fn a_removed_project_is_nowhere_any_more() {
    let mut app = with_terminals();
    app.session.expanded_task_ids.push(TASK);
    app.remove_project_reference(WORKSPACE);
    assert!(app.session.terminals.is_empty());
    app.finish_project_removal(WORKSPACE, Ok(()));
    assert!(app.workspaces.is_empty());
    assert!(app.tasks.is_empty());
    assert!(app.session.docks.is_empty());
    assert!(app.session.expanded_task_ids.is_empty());
    assert_eq!(app.session.selected_workspace_id, None);
}

#[test]
fn a_project_record_that_stays_is_reported() {
    let mut app = application();
    assert!(!app.finish_project_removal(WORKSPACE, Err("locked".to_string())));
    assert_eq!(
        app.status.as_ref().unwrap().message,
        "Could not remove the project reference: locked"
    );
    assert_eq!(app.workspaces.len(), 1);
}

#[test]
fn a_split_loses_the_panel_of_a_closed_terminal() {
    let tree = DockNode::Split {
        axis: DockAxis::Horizontal,
        ratio_bits: 0,
        first: Box::new(DockNode::Panel { terminal_id: 1 }),
        second: Box::new(DockNode::Split {
            axis: DockAxis::Vertical,
            ratio_bits: 0,
            first: Box::new(DockNode::Panel { terminal_id: 2 }),
            second: Box::new(DockNode::Panel { terminal_id: 3 }),
        }),
    };
    assert_eq!(terminals_in(&tree), vec![1, 2, 3]);
    let rest = remove_terminal_node(tree, 2).unwrap();
    assert_eq!(terminals_in(&rest), vec![1, 3]);
    let rest = remove_terminal_node(rest, 1).unwrap();
    assert_eq!(terminals_in(&rest), vec![3]);
    assert!(remove_terminal_node(rest, 3).is_none());
}

#[test]
fn a_terminal_of_the_last_session_is_found_again() {
    let mut last = session();
    let mut codex = terminal(101, None, AgentKind::Gemini);
    codex.codex_session =
        Some(RecordedSession { id: "c".to_string(), profile: AgentProfile::Standard });
    let mut shell = terminal(102, None, AgentKind::Shell);
    shell.claude_session =
        Some(RecordedSession { id: "k".to_string(), profile: AgentProfile::Work });
    last.terminals = vec![codex, shell];
    last.selected_workspace_id = Some(99);
    last.unseen_task_ids = vec![TASK, 77];
    last.agent_order = vec![
        format!("terminal:{}", id_text(101)),
        format!("terminal:{}", id_text(55)),
        "task:x".to_string(),
    ];
    last.expanded_workspace_ids = vec![WORKSPACE];
    let app = BlackholesApp::new(startup(last));
    assert_eq!(app.session.terminals[0].agent, AgentKind::Codex);
    assert_eq!(app.session.terminals[0].state, SessionState::Restored);
    assert_eq!(app.session.terminals[1].agent, AgentKind::Shell);
    assert!(app.session.terminals[1].claude_session.is_none());
    assert_eq!(app.session.selected_workspace_id, Some(WORKSPACE));
    assert_eq!(app.session.unseen_task_ids, vec![TASK]);
    assert_eq!(app.session.agent_order.len(), 1);
    assert!(app.session.expanded_workspace_ids.is_empty());
}

#[test]
fn the_last_failure_of_the_start_is_told() {
    let mut start = startup(session());
    start.failures.push(StartupFailure::EventBridge { error: "a".to_string() });
    start.failures.push(StartupFailure::ClaudeHooks {
        name: "Agent".to_string(),
        error: "b".to_string(),
    });
    let app = BlackholesApp::new(start);
    assert_eq!(app.status.unwrap().message, "Agent session resume is unavailable: b");
}

#[test]
fn agents_keep_the_order_they_were_given() {
    let mut app = with_terminals();
    app.finish_new_terminal(terminal(103, None, AgentKind::Gemini), Ok(()));
    let first = format!("terminal:{}", id_text(103));
    let second = format!("terminal:{}", id_text(102));
    app.reorder_agents(vec![first.clone(), "x".to_string(), second.clone(), first.clone()]);
    assert_eq!(app.session.agent_order, vec![first, second]);
}

#[test]
fn work_is_not_given_twice() {
    let mut app = application();
    let step = app.start_task_terminal(TASK, AgentKind::Codex, None, None, true);
    let descriptor = match step {
        TaskTerminalStep::Start { descriptor } => descriptor,
        other => panic!("{:?}", other),
    };
    assert_eq!(descriptor.label, "Codex · Login");
    assert_eq!(descriptor.cwd, "/w/login");
    let id = descriptor.id;
    app.finish_task_terminal(&descriptor);
    match app.start_task_terminal(TASK, AgentKind::Codex, None, None, true) {
        TaskTerminalStep::Reuse { terminal_id, message } => {
            assert_eq!(terminal_id, id);
            assert!(message.ends_with("is already open. No prompt was resubmitted."));
        }
        other => panic!("{:?}", other),
    }
    match app.start_task_terminal(TASK, AgentKind::Codex, None, Some(id), true) {
        TaskTerminalStep::Reuse { message, .. } => {
            assert!(message.starts_with("This terminal already owns the task."));
        }
        other => panic!("{:?}", other),
    }
    match app.start_task_terminal(TASK, AgentKind::Gemini, None, None, false) {
        TaskTerminalStep::Refuse { error } => assert_eq!(
            error,
            "The task needs its attached worktrees before an agent can start"
        ),
        other => panic!("{:?}", other),
    }
}

#[test]
fn the_agent_of_a_task_is_the_first_that_is_named() {
    let mut app = with_terminals();
    app.session.terminals[1].codex_session =
        Some(RecordedSession { id: "c".to_string(), profile: AgentProfile::Work });
    let mut request = StartTaskAgentsRequest {
        source_terminal_id: Some(102),
        source_agent: None,
        source_config_dir: None,
        agent: None,
        tasks: Vec::new(),
    };
    let mut entry = TaskAgentRequest { task_id: TASK, agent: None, prompt: None };
    assert_eq!(
        app.agent_for_task(&request, &entry, Some("/home/u".to_string())),
        Ok((AgentKind::Codex, Some("/home/u/.codex-work".to_string())))
    );
    request.agent = Some(AgentKind::Gemini);
    assert_eq!(app.agent_for_task(&request, &entry, None), Ok((AgentKind::Gemini, None)));
    entry.agent = Some(AgentKind::Shell);
    let error = app.agent_for_task(&request, &entry, None).unwrap_err();
    assert!(error.starts_with("Could not detect the calling agent. Specify agent: codex, "));
    assert!(error.ends_with(", gemini, or opencode"));
}

#[test]
fn outcomes_are_counted() {
    let mut app = application();
    let outcomes =
        vec![TaskAgentOutcome::Started, TaskAgentOutcome::Failed, TaskAgentOutcome::Started];
    let summary = app.finish_task_agents(&outcomes);
    assert_eq!((summary.started, summary.reused, summary.failed), (2, 0, 1));
    assert_eq!(names(&mut app), vec!["PersistSession", "PublishNavigation", "Redraw"]);
}

#[test]
fn commands_of_agents_are_read() {
    match read_agent_command("start-task-agents:{}") {
        AgentCommand::StartTaskAgents { payload } => assert_eq!(payload, "{}"),
        other => panic!("{:?}", other),
    }
    assert!(matches!(read_agent_command("stop"), AgentCommand::Unsupported));
    assert_eq!(AgentCommandFailure::Unsupported.message(), "Unsupported agent command");
    assert_eq!(
        AgentCommandFailure::Closed.message(),
        "The app closed before handling the command"
    );
}

#[test]
fn messages_of_the_bridge_are_read() {
    let name = provider_name();
    let read = |message: &str| read_bridge_message(message, &name);
    assert!(matches!(read(&format!("{name}-session:x")), BridgeMessage::ClaudeSession { .. }));
    assert!(matches!(read(" codex-session:x\n"), BridgeMessage::CodexSession { payload } if payload == "x"));
    assert!(matches!(read("open-task:zz"), BridgeMessage::OpenTask { task_id: None }));
    let text = format!("note-updated:{}", id_text(TASK));
    assert!(matches!(read(&text), BridgeMessage::NoteUpdated { task_id: Some(TASK) }));
    assert!(matches!(read("anything"), BridgeMessage::Changed));
}

#[test]
fn an_agent_stays_known_until_the_shell_is_in_front() {
    let mut app = with_terminals();
    app.terminal_title_changed(102, "  shop  ", false);
    assert_eq!(app.session.terminals[1].label, "shop");
    assert_eq!(app.session.terminals[1].agent, AgentKind::Codex);
    app.terminal_screen_changed(102, false, false);
    assert_eq!(app.session.terminals[1].agent, AgentKind::Codex);
    app.terminal_screen_changed(102, false, true);
    assert_eq!(app.session.terminals[1].agent, AgentKind::Shell);
}

#[test]
fn a_terminal_that_is_looked_at_no_longer_waits() {
    let mut app = with_terminals();
    app.update_terminal_state(102, SessionState::Attention);
    app.take_effects();
    app.focus_terminal(102);
    assert_eq!(app.session.terminals[1].state, SessionState::Idle);
    assert!(app.surface.show_terminal);
    assert!(!names(&mut app).contains(&"StartTerminal".to_string()));
    app.update_terminal_state(102, SessionState::Working);
    app.focus_terminal(102);
    assert_eq!(app.session.terminals[1].state, SessionState::Working);
}

#[test]
fn a_notification_about_an_ended_terminal_leads_to_its_task() {
    let mut app = with_terminals();
    app.terminal_exited(102);
    app.take_effects();
    app.open_toast_target(AppToastTarget::Terminal { terminal_id: 102, agent: AgentKind::Codex });
    assert!(app.surface.show_task_details);
    assert_eq!(app.session.selected_task_id, Some(TASK));
    assert_eq!(app.session.terminals[1].state, SessionState::Exited);
    let effects = names(&mut app);
    assert!(!effects.contains(&"StartTerminal".to_string()));
    assert_eq!(effects.last().map(String::as_str), Some("ScrollToTask"));
}

#[test]
fn a_terminal_that_starts_for_a_task_keeps_what_is_shown() {
    let mut app = with_terminals();
    app.show_settings();
    let selected = app.session.selected_task_id;
    app.finish_task_terminal(&terminal(103, Some(TASK), AgentKind::Gemini));
    assert!(app.surface.show_settings);
    assert_eq!(app.session.selected_task_id, selected);
    assert_eq!(app.running, vec![101, 102, 103]);
    assert_eq!(
        app.app_toasts[0].message,
        "Task terminal started. Click to follow its work."
    );
}
