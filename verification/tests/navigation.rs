use blackholes::app::{
    AgentLabels, AppSession, AppToastTarget, BlackholesApp, QuickOpenEntries, QuickOpenTarget,
    Status, UpdateState,
};
use blackholes::bridge::{BridgeEvent, BridgeReply};
use blackholes::clock::Time;
use blackholes::commands::NavigationCommand;
use blackholes::effects::{Effect, SurfaceTarget};
use blackholes::ids::id_text;
use blackholes::model::{
    AgentKind, AppTheme, Language, ProjectTask, Repository, TaskRepository, Workspace,
    WorkspaceColor, WorkspaceLayout,
};
use blackholes::sidebar::{SidebarRow, SidebarRowView};
use blackholes::sidebar_actions::SidebarAction;
use blackholes::startup::Startup;
use blackholes::workspace_commands::WorkspaceCommand;

const WORKSPACE: u128 = 1;
const REPOSITORY: u128 = 11;
const TASK: u128 = 21;
const START: Time = Time { seconds: 0, nanoseconds: 0 };

fn provider_name() -> String {
    format!("{:?}", AgentKind::Claude).to_lowercase()
}

fn labels() -> AgentLabels {
    AgentLabels {
        shell: "Terminal".to_string(),
        claude: format!("{:?}", AgentKind::Claude),
        codex: "Codex".to_string(),
        gemini: "Gemini".to_string(),
        open_code: "OpenCode".to_string(),
        antigravity: "Antigravity".to_string(),
        claude_name: provider_name(),
        instructions_file: format!("{}.md", provider_name().to_uppercase()),
    }
}

fn session() -> AppSession {
    AppSession {
        selected_workspace_id: None,
        selected_task_id: None,
        selected_repository_id: None,
        expanded_workspace_ids: Vec::new(),
        expanded_task_ids: Vec::new(),
        unseen_task_ids: Vec::new(),
        terminals: Vec::new(),
        docks: Vec::new(),
        agent_order: Vec::new(),
        language: Language::English,
        theme: AppTheme::Dark,
        navigation_expansion_initialized: false,
    }
}

fn workspace() -> Workspace {
    Workspace {
        id: WORKSPACE,
        label: "Shop".to_string(),
        root_path: Some("/p/shop".to_string()),
        repositories: vec![Repository {
            id: REPOSITORY,
            name: "web".to_string(),
            path: "/p/shop/web".to_string(),
            branch: Some("main".to_string()),
        }],
        icon: "rocket".to_string(),
        color: WorkspaceColor::Mint,
        layout: WorkspaceLayout::SingleRepository,
        ignored_repository_paths: Vec::new(),
        updated_at: START,
    }
}

fn task() -> ProjectTask {
    ProjectTask {
        id: TASK,
        workspace_id: WORKSPACE,
        title: "Login".to_string(),
        icon: "list-todo".to_string(),
        color: WorkspaceColor::Sky,
        branch: Some("feature/login".to_string()),
        repositories: vec![TaskRepository {
            repository_id: REPOSITORY,
            worktree_path: "/w/login/web".to_string(),
            branch: "feature/login".to_string(),
        }],
        sessions: Vec::new(),
        worktree_root_path: "/w/login".to_string(),
        sort_order: 0,
        created_at: START,
        updated_at: START,
    }
}

fn startup(session: AppSession) -> Startup {
    Startup {
        workspaces: Ok(vec![workspace()]),
        tasks: Ok(vec![task()]),
        session,
        task_workspaces: "/w".to_string(),
        agent_labels: labels(),
        update_state: UpdateState {
            enabled: true,
            error: String::new(),
            restart: false,
            busy: false,
            available: String::new(),
        },
        git_available: true,
        has_workspace_webview: true,
        has_navigation_webview: true,
        failures: Vec::new(),
    }
}

fn application() -> BlackholesApp {
    let mut app = BlackholesApp::new(startup(session()));
    app.take_effects();
    app
}

fn names(app: &mut BlackholesApp) -> Vec<String> {
    let mut result = Vec::new();
    for effect in app.take_effects() {
        let text = format!("{:?}", effect);
        let end = text.find(|c: char| !c.is_alphanumeric()).unwrap_or(text.len());
        result.push(text[..end].to_string());
    }
    result
}

#[test]
fn a_selected_task_shows_its_details() {
    let mut app = application();
    app.select_target(WORKSPACE, Some(TASK), None);
    assert_eq!(app.active_surface(), Some(SurfaceTarget::TaskDetails { task_id: TASK }));
    assert_eq!(app.session.expanded_workspace_ids, vec![WORKSPACE]);
    app.select_target(WORKSPACE, None, None);
    assert_eq!(
        app.active_surface(),
        Some(SurfaceTarget::ProjectOverview { workspace_id: WORKSPACE })
    );
    app.show_home();
    assert_eq!(app.active_surface(), Some(SurfaceTarget::Home));
}

#[test]
fn leaving_the_settings_brings_back_the_page() {
    let mut app = application();
    app.select_target(WORKSPACE, Some(TASK), None);
    let shown = app.active_surface();
    app.show_settings();
    assert_eq!(app.active_surface(), Some(SurfaceTarget::Settings));
    app.close_settings();
    assert_eq!(app.active_surface(), shown);
}

#[test]
fn a_message_expires_unless_another_came_up() {
    let mut app = application();
    app.set_status("one".to_string(), false);
    let revision = app.status_revision;
    app.set_status("two".to_string(), true);
    app.expire_status(revision, &Status { message: "one".to_string(), error: false });
    assert_eq!(app.status.as_ref().unwrap().message, "two");
    let revision = app.status_revision;
    app.expire_status(revision, &Status { message: "two".to_string(), error: true });
    assert!(app.status.is_none());
    app.session_save_failed(app.status_revision, "disk");
    assert_eq!(app.status.as_ref().unwrap().message, "Could not save the session: disk");
    app.dismiss_status();
    assert!(app.status.is_none());
}

#[test]
fn the_tree_shows_what_is_expanded() {
    let mut app = application();
    assert_eq!(app.render_sidebar(), vec![SidebarRow::Project { workspace: 0 }]);
    app.toggle_workspace_expanded(WORKSPACE);
    assert_eq!(
        app.render_sidebar(),
        vec![
            SidebarRow::Project { workspace: 0 },
            SidebarRow::Repository { workspace: 0, repository: 0 },
            SidebarRow::TasksHeading { workspace: 0 },
            SidebarRow::Task { workspace: 0, task: 0 },
        ]
    );
    assert_eq!(app.sidebar_workspace_row_index(WORKSPACE), Some(0));
    assert_eq!(app.sidebar_task_row_index(TASK), Some(4));
    app.toggle_task_expanded(TASK);
    assert_eq!(app.render_sidebar().len(), 5);
    match app.describe_sidebar_row(SidebarRow::Project { workspace: 0 }) {
        SidebarRowView::Project { label, expanded, color, .. } => {
            assert_eq!(label, "Shop");
            assert!(expanded);
            assert_eq!(color, 0x8db9ab);
        }
        other => panic!("{:?}", other),
    }
    app.collapse_all_navigation();
    assert_eq!(app.render_sidebar().len(), 1);
    assert_eq!(app.sidebar_task_row_index(TASK), None);
}

#[test]
fn the_tree_is_published() {
    let mut app = application();
    app.select_target(WORKSPACE, Some(TASK), None);
    let view = app.hydrate_navigation();
    assert_eq!(view.projects.len(), 1);
    assert_eq!(view.projects[0].label, "Shop");
    assert_eq!(view.projects[0].color, "#8db9ab");
    assert!(view.projects[0].tasks[0].selected);
    assert_eq!(view.projects[0].tasks[0].title, "Login");
    assert_eq!(view.projects[0].repositories[0].details.branch.as_deref(), Some("main"));
}

#[test]
fn the_palette_finds_projects_and_tasks() {
    let mut app = application();
    app.open_navigation_palette();
    let id = app.quick_open.as_ref().unwrap().id;
    assert!(app.palette_is_open(id));
    assert!(app.quick_open.as_ref().unwrap().scores_fit());
    let all = app.quick_open_results();
    assert_eq!(all.len(), 2);
    app.change_quick_open_query(id, " LOGIN ".to_string());
    assert!(app.quick_open.as_ref().unwrap().scores_fit());
    let found = app.quick_open_results();
    let state = app.quick_open.as_ref().unwrap();
    let items = match &state.entries {
        QuickOpenEntries::Ready(items) => items,
        other => panic!("{:?}", other),
    };
    assert!(matches!(items[found[0]].target, QuickOpenTarget::Task { task_id: TASK, .. }));
    app.activate_quick_open_selected();
    assert_eq!(app.session.selected_task_id, Some(TASK));
    assert!(app.quick_open.is_none());
}

#[test]
fn the_selection_of_the_palette_moves_within_the_results() {
    let mut app = application();
    app.open_navigation_palette();
    app.move_quick_open_selection(1);
    assert_eq!(app.quick_open.as_ref().unwrap().selected, 1);
    app.move_quick_open_selection(1);
    assert_eq!(app.quick_open.as_ref().unwrap().selected, 1);
    app.move_quick_open_selection(-5);
    assert_eq!(app.quick_open.as_ref().unwrap().selected, 0);
    assert!(app.handle_quick_open_key_down("escape"));
    assert!(app.quick_open.is_none());
    assert!(!app.handle_quick_open_key_down("x"));
}

#[test]
fn the_palette_of_files_needs_a_repository() {
    let mut app = application();
    app.session.selected_workspace_id = None;
    app.open_file_palette();
    assert_eq!(
        app.status.as_ref().unwrap().message,
        "Select a repository before opening file search"
    );
}

#[test]
fn a_task_that_is_ready_is_announced_and_seen() {
    let mut app = application();
    let event = BridgeEvent::TaskReady { task_id: TASK, title: None, message: None };
    match app.handle_bridge_event(event, false) {
        BridgeReply::Announce { toast } => {
            assert_eq!(toast.target, AppToastTarget::Task { task_id: TASK });
            assert!(toast.title.contains("Task ready"));
        }
        other => panic!("{:?}", other),
    }
    assert_eq!(app.session.unseen_task_ids, vec![TASK]);
    let event = BridgeEvent::TaskReady {
        task_id: TASK,
        title: Some("T".to_string()),
        message: Some("M".to_string()),
    };
    app.handle_bridge_event(event, false);
    assert_eq!(app.app_toasts.len(), 1);
    assert_eq!(app.app_toasts[0].title, "T");
    assert_eq!(app.render_app_toasts().len(), 1);
    app.show_task_details_for(WORKSPACE, TASK);
    assert!(app.session.unseen_task_ids.is_empty());
    assert!(app.app_toasts.is_empty());
}

#[test]
fn a_task_that_is_not_known_is_looked_for() {
    let mut app = application();
    let event = BridgeEvent::TaskReady { task_id: 99, title: None, message: None };
    assert!(matches!(app.handle_bridge_event(event, false), BridgeReply::Reload { .. }));
    let event = BridgeEvent::TaskReady { task_id: 99, title: None, message: None };
    assert!(matches!(app.handle_bridge_event(event, true), BridgeReply::Done));
}

#[test]
fn a_new_task_keeps_what_is_shown() {
    let mut app = application();
    app.show_settings();
    let shown = app.active_surface();
    let mut more = task();
    more.id = 22;
    app.reload_external_data(Some(vec![workspace()]), Some(vec![task(), more]));
    assert_eq!(app.active_surface(), shown);
    assert_eq!(app.tasks.len(), 2);
}

#[test]
fn commands_of_the_tree() {
    let mut app = application();
    app.handle_navigation_command(NavigationCommand::ToggleProject { workspace_id: WORKSPACE });
    assert_eq!(app.session.expanded_workspace_ids, vec![WORKSPACE]);
    app.handle_navigation_command(NavigationCommand::SelectTask {
        workspace_id: WORKSPACE,
        task_id: TASK,
    });
    assert_eq!(app.session.selected_task_id, Some(TASK));
    app.handle_navigation_command(NavigationCommand::CollapseAll);
    assert!(app.session.expanded_workspace_ids.is_empty());
}

#[test]
fn commands_of_the_central_surface() {
    let mut app = application();
    app.handle_workspace_command(WorkspaceCommand::SetLanguage { language: "es".to_string() });
    assert_eq!(app.session.language, Language::Spanish);
    app.handle_workspace_command(WorkspaceCommand::SetTheme { theme: AppTheme::Light });
    assert_eq!(app.session.theme, AppTheme::Light);
    app.take_effects();
    app.handle_workspace_command(WorkspaceCommand::CopyText { text: "x".to_string() });
    let effects = app.take_effects();
    assert!(matches!(&effects[0], Effect::CopyText { text } if text == "x"));
}

#[test]
fn details_of_a_task_are_saved_one_after_the_other() {
    let mut app = application();
    app.note_task_details_dirty(TASK, true);
    assert_eq!(app.task_details_dirty, vec![TASK]);
    app.take_effects();
    app.save_task_details(TASK, "1".to_string(), "{}".to_string());
    assert_eq!(names(&mut app)[0], "SaveTaskDetails");
    let mut changed = task();
    changed.title = "Sign in".to_string();
    app.finish_task_details(TASK, "1".to_string(), Ok(changed), None);
    assert_eq!(app.tasks[0].title, "Sign in");
}

#[test]
fn pages_are_published() {
    let mut app = application();
    app.select_target(WORKSPACE, Some(TASK), None);
    app.take_effects();
    app.hydrate_active_workspace_surface();
    let effects = app.take_effects();
    assert!(matches!(
        effects[0],
        Effect::PublishSurface { target: SurfaceTarget::TaskDetails { task_id: TASK } }
    ));
    assert!(app.hydrate_task_details_surface(TASK).is_some());
    assert!(app.hydrate_task_details_surface(99).is_none());
    assert!(app.hydrate_project_overview_surface(WORKSPACE).is_some());
}

#[test]
fn rows_of_the_tree_have_buttons() {
    let app = application();
    let row = SidebarRow::Project { workspace: 0 };
    assert!(row.is_current(&app));
    assert!(!SidebarRow::Project { workspace: 1 }.is_current(&app));
    let id = id_text(WORKSPACE);
    assert_eq!(app.sidebar_row_element(row), Some(format!("workspace-{id}")));
    let buttons = app.sidebar_row_buttons(row);
    assert_eq!(buttons.len(), 3);
    assert_eq!(buttons[0].element_id, format!("refresh-project-repositories-{id}"));
    assert_eq!(buttons[0].tooltip, "Find new repositories");
    assert!(buttons[0].items.is_empty());
    let labels: Vec<&str> = buttons[2].items.iter().map(|item| item.label.as_str()).collect();
    assert_eq!(labels, vec!["Edit project", "Project settings", "Remove project"]);
    let row = SidebarRow::TaskRepository { workspace: 0, task: 0, repository: 0 };
    let buttons = app.sidebar_row_buttons(row);
    assert_eq!(buttons.len(), 1);
    assert_eq!(
        buttons[0].element_id,
        format!("task-repository-add-terminal-{}-{}", id_text(TASK), id_text(REPOSITORY))
    );
    assert_eq!(buttons[0].items.len(), 3);
    assert_eq!(buttons[0].items[2].label, "Codex");
    let heading = SidebarRow::TasksHeading { workspace: 0 };
    assert!(app.sidebar_row_buttons(heading).is_empty());
    assert!(app.click_sidebar_row(heading).is_none());
    assert!(app.sidebar_row_element(heading).is_none());
    assert_eq!(app.sidebar_frame().settings_background, 0x111318);
}

#[test]
fn clicks_in_the_tree_select_and_expand() {
    let mut app = application();
    app.session.unseen_task_ids.push(TASK);
    let row = SidebarRow::TaskRepository { workspace: 0, task: 0, repository: 0 };
    let action = app.click_sidebar_row(row).unwrap();
    app.handle_sidebar_action(action);
    assert!(app.session.unseen_task_ids.is_empty());
    assert_eq!(app.session.selected_task_id, Some(TASK));
    assert_eq!(app.session.selected_repository_id, Some(REPOSITORY));
    let expanded = app.session.expanded_task_ids.contains(&TASK);
    let action = app.click_sidebar_row(SidebarRow::Task { workspace: 0, task: 0 }).unwrap();
    app.handle_sidebar_action(action);
    assert_eq!(app.session.expanded_task_ids.contains(&TASK), !expanded);
    app.take_effects();
    app.handle_sidebar_action(SidebarAction::OpenInstructions { workspace_id: WORKSPACE });
    assert_eq!(names(&mut app), vec!["PrepareInstructions"]);
    app.handle_sidebar_action(SidebarAction::OpenInstructions { workspace_id: 999 });
    assert!(names(&mut app).is_empty());
    let action = app.click_sidebar_row(SidebarRow::Project { workspace: 0 }).unwrap();
    app.handle_sidebar_action(action);
    assert_eq!(app.session.selected_task_id, None);
    assert_eq!(app.session.selected_workspace_id, Some(WORKSPACE));
}

#[test]
fn new_tasks_are_registered_by_the_time_of_their_creation() {
    let mut app = application();
    let created = |id: u128, seconds: i64, nanoseconds: u32| ProjectTask {
        id,
        created_at: Time { seconds, nanoseconds },
        ..task()
    };
    let tasks = vec![task(), created(22, 5, 1_002), created(23, 5, 1_001), created(24, 4, 9_000)];
    app.reload_external_data(None, Some(tasks));
    assert_eq!(app.session.unseen_task_ids, vec![24, 23, 22]);
}

#[test]
fn tasks_stand_in_their_order_in_the_tree() {
    let mut app = application();
    app.tasks.push(ProjectTask { id: 22, ..task() });
    app.toggle_workspace_expanded(WORKSPACE);
    assert_eq!(app.sidebar_workspace_row_index(WORKSPACE), Some(0));
    assert_eq!(app.sidebar_task_row_index(TASK), Some(4));
    assert_eq!(app.sidebar_task_row_index(22), Some(5));
}
