use blackholes::accounts::{provider_plan_detail, provider_plan_name, AgentAuthEvent};
use blackholes::additions::{AdditionStep, Additions};
use blackholes::app::{
    AgentAuthStatus, AgentLabels, AppSession, BlackholesApp, PlanUsageWindow, ProviderPlanUsage,
    RemovalPlan, UpdateState,
};
use blackholes::clock::Time;
use blackholes::documents::refresh_failure;
use blackholes::drafts::{
    addition_line, attached_line, branch_exists, creation_line, non_empty_value, option_line,
    repository_line, BranchAvailability, DetachRepositoriesDraft, ExistingBranchAction,
    SetupCommand, TaskBranchSource, TaskDraftOptions, TaskForm,
};
use blackholes::effects::{AgentProvider, Effect, ModalKind, RepositoryMode, RepositorySource};
use blackholes::labels::{project_colors, project_icon_options};
use blackholes::modals::{
    files_to_move_back, removal_failure, AddedRepositories, RemovalEvidence, TaskModalOutcome,
};
use blackholes::model::{
    AgentKind, AppTheme, Language, ProjectTask, Repository, TaskRepository, Workspace,
    WorkspaceColor, WorkspaceLayout,
};
use blackholes::projects::{RefreshOutcome, RemovedTaskRepository, StoreError};
use blackholes::startup::Startup;
use blackholes::surfaces::{plan_window_label, usage_updated};
use blackholes::task_dialogs::{
    available_repositories, render_add_repositories, render_create_task, render_remove_repositories,
};

const WORKSPACE: u128 = 1;
const REPOSITORY: u128 = 11;
const TASK: u128 = 21;
const START: Time = Time { seconds: 0, nanoseconds: 0 };

fn provider_name() -> String {
    format!("{:?}", AgentKind::Claude).to_lowercase()
}

fn labels() -> AgentLabels {
    AgentLabels {
        shell: "Terminal".to_string(),
        claude: format!("{:?}", AgentKind::Claude),
        codex: "Codex".to_string(),
        gemini: "Gemini".to_string(),
        open_code: "OpenCode".to_string(),
        antigravity: "Antigravity".to_string(),
        claude_name: provider_name(),
        instructions_file: format!("{}.md", provider_name().to_uppercase()),
    }
}

fn session() -> AppSession {
    AppSession {
        selected_workspace_id: None,
        selected_task_id: None,
        selected_repository_id: None,
        expanded_workspace_ids: Vec::new(),
        expanded_task_ids: Vec::new(),
        unseen_task_ids: Vec::new(),
        terminals: Vec::new(),
        docks: Vec::new(),
        agent_order: Vec::new(),
        language: Language::English,
        theme: AppTheme::Dark,
        navigation_expansion_initialized: false,
    }
}

fn workspace() -> Workspace {
    Workspace {
        id: WORKSPACE,
        label: "Shop".to_string(),
        root_path: Some("/p/shop".to_string()),
        repositories: vec![Repository {
            id: REPOSITORY,
            name: "web".to_string(),
            path: "/p/shop/web".to_string(),
            branch: Some("main".to_string()),
        }],
        icon: "rocket".to_string(),
        color: WorkspaceColor::Mint,
        layout: WorkspaceLayout::SingleRepository,
        ignored_repository_paths: Vec::new(),
        updated_at: START,
    }
}

fn task() -> ProjectTask {
    ProjectTask {
        id: TASK,
        workspace_id: WORKSPACE,
        title: "Login".to_string(),
        icon: "list-todo".to_string(),
        color: WorkspaceColor::Sky,
        branch: Some("feature/login".to_string()),
        repositories: vec![TaskRepository {
            repository_id: REPOSITORY,
            worktree_path: "/w/login/web".to_string(),
            branch: "feature/login".to_string(),
        }],
        sessions: Vec::new(),
        worktree_root_path: "/w/login".to_string(),
        sort_order: 0,
        created_at: START,
        updated_at: START,
    }
}

fn startup(session: AppSession) -> Startup {
    Startup {
        workspaces: Ok(vec![workspace()]),
        tasks: Ok(vec![task()]),
        session,
        task_workspaces: "/w".to_string(),
        agent_labels: labels(),
        update_state: UpdateState {
            enabled: true,
            error: String::new(),
            restart: false,
            busy: false,
            available: String::new(),
        },
        git_available: true,
        has_workspace_webview: true,
        has_navigation_webview: true,
        failures: Vec::new(),
    }
}

fn application() -> BlackholesApp {
    let mut app = BlackholesApp::new(startup(session()));
    app.take_effects();
    app
}

fn names(app: &mut BlackholesApp) -> Vec<String> {
    let mut result = Vec::new();
    for effect in app.take_effects() {
        let text = format!("{:?}", effect);
        let end = text.find(|c: char| !c.is_alphanumeric()).unwrap_or(text.len());
        result.push(text[..end].to_string());
    }
    result
}

fn message(app: &BlackholesApp) -> &str {
    app.status.as_ref().unwrap().message.as_str()
}

fn branch() -> BranchAvailability {
    BranchAvailability {
        repository_name: "web".to_string(),
        local_revision: None,
        remote_revision: Some("abc".to_string()),
        local_checked_out: false,
        base: Some("main".to_string()),
    }
}

fn draft() -> TaskDraftOptions {
    TaskDraftOptions::new(TaskBranchSource::Local, ExistingBranchAction::Reuse)
}

fn form(title: &str) -> TaskForm {
    TaskForm {
        title: title.to_string(),
        branch_name: "feature/x".to_string(),
        base: " master ".to_string(),
        description: "d".to_string(),
        setup_commands: vec![SetupCommand {
            repository_id: REPOSITORY,
            command: "npm install".to_string(),
        }],
    }
}

#[test]
fn a_check_of_a_branch_is_told() {
    let mut result = branch();
    assert_eq!(creation_line(&result, TaskBranchSource::Local), "web: missing · from main");
    assert_eq!(creation_line(&result, TaskBranchSource::Remote), "web: origin");
    assert_eq!(
        creation_line(&result, TaskBranchSource::Current),
        "web: new branch from current HEAD · from main"
    );
    assert_eq!(addition_line(&result, TaskBranchSource::Remote), "web: found");
    assert!(!branch_exists(&result, TaskBranchSource::Current));
    result.local_revision = Some("abc".to_string());
    result.local_checked_out = true;
    assert_eq!(
        creation_line(&result, TaskBranchSource::Current),
        "web: existing local branch · already checked out"
    );
    assert_eq!(addition_line(&result, TaskBranchSource::Local), "web: already checked out");
    assert_eq!(option_line(true, "Local branch"), "● Local branch");
    assert_eq!(repository_line(false, "web"), "○  web");
    assert_eq!(attached_line(true, "web", "main"), "●  web  ·  main");
    assert_eq!(non_empty_value("  a "), Some("a".to_string()));
    assert_eq!(non_empty_value("  "), None);
}

#[test]
fn a_draft_becomes_a_request() {
    let mut draft = draft();
    let repositories = workspace().repositories;
    assert!(draft.create_request(&form("Fix"), &repositories).is_none());
    draft.toggle_repository(REPOSITORY);
    draft.toggle_copy_environment_files(REPOSITORY);
    draft.toggle_create_missing();
    assert!(draft.create_request(&form("  "), &repositories).is_none());
    let request = draft.create_request(&form("Fix"), &repositories).unwrap();
    assert_eq!(request.title, "Fix");
    assert_eq!(request.base_ref.as_deref(), Some("master"));
    assert_eq!(request.branch_name.as_deref(), Some("feature/x"));
    assert_eq!(request.repository_ids, vec![REPOSITORY]);
    assert!(request.create_missing_branch);
    assert!(request.preparations[0].copy_environment_files);
    assert!(!request.preparations[0].copy_local_changes);
    assert_eq!(request.preparations[0].setup_command.as_deref(), Some("npm install"));
    let addition = draft.add_request("", &Vec::new()).unwrap();
    assert_eq!(addition.base_ref, None);
    assert_eq!(addition.preparations[0].setup_command, None);
}

#[test]
fn a_branch_is_checked_only_with_a_name_and_a_repository() {
    let mut draft = draft();
    assert!(draft.branch_check("x", "").is_none());
    assert!(draft.addition_branch_check("x", "").is_none());
    draft.toggle_repository(REPOSITORY);
    assert!(draft.branch_check(" ", "").is_none());
    let addition = draft.addition_branch_check(" ", "").unwrap();
    assert_eq!(addition.branch_name, " ");
    assert_eq!(addition.base_ref, None);
    let check = draft.branch_check("x", "main").unwrap();
    assert_eq!(check.repository_ids, vec![REPOSITORY]);
    assert_eq!(check.base_ref.as_deref(), Some("main"));
    draft.toggle_repository(REPOSITORY);
    assert!(!draft.is_selected(REPOSITORY));
}

#[test]
fn what_was_checked_is_forgotten_with_another_source() {
    let mut app = application();
    let mut draft = draft();
    app.finish_branch_check(&mut draft, Ok(vec![branch()]), true);
    assert_eq!(draft.availability.as_ref().unwrap().len(), 1);
    draft.set_branch_source(TaskBranchSource::Remote);
    assert!(draft.availability.is_none());
    app.finish_branch_check(&mut draft, Err("no git".to_string()), true);
    assert_eq!(message(&app), "Could not check the branch: no git");
}

#[test]
fn repositories_are_detached_by_request() {
    let mut draft = DetachRepositoriesDraft::new();
    assert!(draft.request().is_none());
    draft.toggle_repository(REPOSITORY);
    draft.toggle_delete_branch();
    let request = draft.request().unwrap();
    assert_eq!(request.repository_ids, vec![REPOSITORY]);
    assert!(request.delete_branch);
    assert!(!request.discard_uncommitted_changes);
}

#[test]
fn dialogs_show_the_choices() {
    let mut draft = draft();
    draft.toggle_repository(REPOSITORY);
    let repositories = workspace().repositories;
    let create = render_create_task(&draft, Language::English, &repositories);
    assert_eq!(create.texts.dialog_title, "Create isolated task workspace");
    let spanish = render_create_task(&draft, Language::Spanish, &repositories);
    assert_eq!(spanish.texts.submit_label, "Crear tarea");
    let add = render_add_repositories(&draft, Language::English, &repositories);
    assert_eq!(add.repositories[0].line, "●  web");
    let mut detach = DetachRepositoriesDraft::new();
    detach.toggle_repository(REPOSITORY);
    let remove =
        render_remove_repositories(&detach, Language::English, &repositories, &task().repositories);
    assert_eq!(remove.repositories[0].line, "●  web  ·  feature/login");
}

#[test]
fn only_repositories_that_are_not_attached_can_be_added() {
    let mut app = application();
    assert!(available_repositories(&workspace().repositories, &task().repositories).is_empty());
    app.open_add_task_repositories(TASK);
    assert!(message(&app).starts_with("Every project repository is already attached to "));
    app.workspaces[0].repositories[0].id = 12;
    app.tasks[0].branch = None;
    app.open_add_task_repositories(TASK);
    assert!(message(&app).ends_with("does not have a branch to reuse"));
    app.tasks[0].branch = Some("x".to_string());
    app.take_effects();
    app.open_add_task_repositories(TASK);
    assert_eq!(names(&mut app), vec!["OpenDialog"]);
}

#[test]
fn the_last_repository_of_a_task_stays() {
    let mut app = application();
    app.open_remove_task_repositories(TASK);
    assert_eq!(
        message(&app),
        "A task keeps at least one repository; delete the whole task instead"
    );
}

#[test]
fn a_dialog_for_a_task_needs_a_repository() {
    let mut app = application();
    app.session.selected_workspace_id = Some(WORKSPACE);
    app.open_create_task();
    let (request_id, workspace_id) = app.modals.task_request.unwrap();
    assert_eq!(workspace_id, WORKSPACE);
    app.take_effects();
    let mut chosen = draft();
    chosen.toggle_repository(REPOSITORY);
    let creation = chosen.create_request(&form("Fix"), &workspace().repositories).unwrap();
    app.handle_create_task_modal(request_id, WORKSPACE, creation, false);
    assert!(app.modals.task_submitting);
    app.take_effects();
    let outcome = TaskModalOutcome::Checked(vec![branch()]);
    app.finish_create_task_modal(request_id, WORKSPACE, Ok(outcome), Ok(()));
    assert!(!app.modals.task_submitting);
    app.finish_create_task_modal(request_id, WORKSPACE, Err("disk full".to_string()), Ok(()));
    let effects = app.take_effects();
    assert!(effects.iter().any(
        |effect| matches!(effect, Effect::ModalError { message, .. } if message.contains("disk full"))
    ));
    app.workspaces[0].repositories.clear();
    app.dismiss_app_modal();
    assert!(app.modals.task_request.is_none());
    app.open_create_task();
    assert_eq!(message(&app), "Add a Git repository before creating a task");
}

#[test]
fn projects_are_created_and_refused() {
    let mut app = application();
    app.open_create_project();
    let request = app.modals.project_request.unwrap();
    app.take_effects();
    app.submit_create_project_modal(request, " ".to_string(), Vec::new(), RepositoryMode::Link);
    let effects = app.take_effects();
    assert!(matches!(
        &effects[0],
        Effect::ModalError { message, .. } if message == "Enter a project name."
    ));
    let unknown = vec![RepositorySource::Local { path: "/x".to_string() }];
    app.submit_create_project_modal(request, "Shop".to_string(), unknown, RepositoryMode::Copy);
    let effects = app.take_effects();
    assert!(matches!(
        &effects[0],
        Effect::ModalError { message, .. }
            if message == "Choose local repositories using the folder picker."
    ));
    app.submit_create_project_modal(request, "Shop".to_string(), Vec::new(), RepositoryMode::Link);
    assert!(app.modals.project_submitting);
}

#[test]
fn a_project_is_added_once() {
    let mut app = application();
    app.finish_background_workspace(Ok(workspace()), Ok(()));
    assert_eq!(message(&app), "That project is already in Blackholes");
    let mut other = workspace();
    other.id = 2;
    other.root_path = Some("/p/other".to_string());
    app.finish_background_workspace(Ok(other), Ok(()));
    assert_eq!(message(&app), "Project ready");
    assert_eq!(app.workspaces.len(), 2);
    app.finish_background_workspace(Err("x".to_string()), Ok(()));
    assert_eq!(message(&app), "Project operation failed: x");
    let mut third = workspace();
    third.root_path = None;
    app.create_empty_project(Ok(third), Err(StoreError::Note("n".to_string())));
    assert_eq!(message(&app), "Could not create the project note: n");
    let mut fourth = workspace();
    fourth.root_path = None;
    app.create_empty_project(Ok(fourth), Err(StoreError::Record("r".to_string())));
    assert_eq!(message(&app), "Could not save the project: r");
    app.create_empty_project(Err("e".to_string()), Ok(()));
    assert_eq!(message(&app), "Could not create the project: e");
}

#[test]
fn a_project_is_renamed_and_copied() {
    let mut app = application();
    let wanted = app.update_project_name(WORKSPACE, "Store".to_string()).unwrap();
    assert_eq!(wanted.name, "Store");
    assert_eq!(wanted.icon, "rocket");
    assert_eq!(wanted.color, WorkspaceColor::Mint);
    assert!(app.update_project_name(99, "x".to_string()).is_none());
    app.duplicate_project(WORKSPACE, "Shop");
    assert_eq!(app.busy.as_deref(), Some("Duplicating project…"));
    let effects = app.take_effects();
    assert!(matches!(
        &effects[0],
        Effect::DuplicateProject { workspace_id: WORKSPACE, name } if name == "Shop copy"
    ));
}

#[test]
fn repositories_that_are_found_join_the_project() {
    let mut app = application();
    let found = vec![
        Repository {
            id: 12,
            name: "api".to_string(),
            path: "/p/shop/api".to_string(),
            branch: None,
        },
        workspace().repositories.remove(0),
    ];
    match app.refresh_project_repositories(WORKSPACE, Ok(found)) {
        RefreshOutcome::Merged { paths } => assert_eq!(paths, vec!["/p/shop/api"]),
        other => panic!("{:?}", other),
    }
    let all: Vec<&str> =
        app.workspaces[0].repositories.iter().map(|repository| repository.name.as_str()).collect();
    assert_eq!(all, vec!["api", "web"]);
    app.finish_project_refresh(vec!["/p/shop/api".to_string()], Ok(()));
    assert_eq!(message(&app), "Repository added");
    app.refresh_project_repositories(WORKSPACE, Err("denied".to_string()));
    assert_eq!(message(&app), "Could not scan project repositories: denied");
    app.refresh_project_repositories(WORKSPACE, Ok(Vec::new()));
    assert_eq!(message(&app), "No new repositories were found");
}

#[test]
fn repositories_that_were_added_are_told() {
    let mut app = application();
    app.open_add_project_repository(WORKSPACE);
    let request = app.modals.project_request.unwrap();
    app.take_effects();
    let added = AddedRepositories {
        workspace: workspace(),
        completed: vec!["a".to_string()],
        error: Some("b failed".to_string()),
        stored: Ok(()),
    };
    app.finish_add_repositories(request, WORKSPACE, added);
    assert!(app.take_effects().iter().any(|effect| matches!(effect, Effect::ModalPartial { .. })));
    let added = AddedRepositories {
        workspace: workspace(),
        completed: vec!["a".to_string()],
        error: None,
        stored: Ok(()),
    };
    app.finish_add_repositories(request, WORKSPACE, added);
    assert_eq!(message(&app), "Repositories added");
}

#[test]
fn a_repository_is_removed_only_when_nothing_needs_it() {
    let mut app = application();
    let mut evidence = RemovalEvidence {
        tasks: Ok(vec![task()]),
        plan: Ok(RemovalPlan { linked: false, path: "/p/shop/web".to_string() }),
        workspaces: Ok(Vec::new()),
    };
    let guard = |app: &BlackholesApp, evidence: &RemovalEvidence| {
        app.repository_removal_guard(WORKSPACE, REPOSITORY, evidence)
    };
    assert_eq!(
        guard(&app, &evidence).unwrap_err(),
        "Remove this repository from its tasks first. Their worktrees must be preserved."
    );
    evidence.tasks = Ok(Vec::new());
    assert_eq!(guard(&app, &evidence), Ok(()));
    let mut other = workspace();
    other.id = 2;
    other.root_path = Some("/p/shop/web/sub".to_string());
    evidence.workspaces = Ok(vec![other]);
    assert_eq!(
        guard(&app, &evidence).unwrap_err(),
        "Another project uses this folder. Remove that reference first."
    );
    evidence.plan = Ok(RemovalPlan { linked: true, path: "/p/shop/web".to_string() });
    assert_eq!(guard(&app, &evidence), Ok(()));
    evidence.plan = Err("gone".to_string());
    assert_eq!(guard(&app, &evidence).unwrap_err(), "gone");
    app.busy = Some("x".to_string());
    assert_eq!(
        guard(&app, &evidence).unwrap_err(),
        "Wait for active operations and agents to finish."
    );
    app.busy = None;
    assert_eq!(
        app.repository_removal_guard(9, REPOSITORY, &evidence).unwrap_err(),
        "Project missing"
    );
}

#[test]
fn repositories_are_taken_from_a_task() {
    let mut app = application();
    let mut rest = task();
    rest.repositories.clear();
    let removed = vec![RemovedTaskRepository {
        repository_id: REPOSITORY,
        worktree_path: "/w/login/web".to_string(),
        branch_deleted: true,
    }];
    app.finish_detached_task_repositories(Ok((rest, removed)), Ok(()));
    assert_eq!(message(&app), "1 worktree(s) removed; 1 branch(es) deleted");
    assert!(app.tasks[0].repositories.is_empty());
}

#[test]
fn a_task_that_was_made_is_shown() {
    let mut app = application();
    let mut made = task();
    made.id = 22;
    app.finish_background_task(Ok(made), Ok(()));
    assert_eq!(message(&app), "Task workspace ready");
    assert_eq!(app.tasks.len(), 2);
    assert_eq!(app.session.selected_task_id, Some(22));
    app.finish_background_task(Err("x".to_string()), Ok(()));
    assert_eq!(message(&app), "Could not create the task: x");
    let mut changed = task();
    changed.title = "Sign in".to_string();
    app.finish_updated_task(Ok(changed), Ok(()));
    assert_eq!(message(&app), "Task updated");
    assert_eq!(app.tasks[0].title, "Sign in");
}

#[test]
fn signing_in_goes_through_its_states() {
    let mut app = application();
    let id = app.finish_authentication_start(AgentProvider::Codex, Ok(())).unwrap();
    assert!(app.is_authenticating(id, AgentProvider::Codex));
    assert!(!app.is_authenticating(id, AgentProvider::Gemini));
    let status = |app: &BlackholesApp| app.authentication.as_ref().unwrap().status;
    assert_eq!(status(&app), AgentAuthStatus::Connecting);
    let output = AgentAuthEvent::Output { text: "Paste the CODE here".to_string() };
    app.handle_agent_auth_event(id, AgentProvider::Codex, output, "Codex", Ok(()));
    assert_eq!(status(&app), AgentAuthStatus::NeedsInput);
    app.take_effects();
    app.submit_agent_auth_value("  1234 ");
    assert!(app.take_effects().iter().any(
        |effect| matches!(effect, Effect::SendAuthenticationInput { text } if text == "1234")
    ));
    app.finish_agent_auth_input(false);
    assert_eq!(status(&app), AgentAuthStatus::Error);
    let late = AgentAuthEvent::Completed;
    app.handle_agent_auth_event(id + 1, AgentProvider::Codex, late, "Codex", Ok(()));
    assert_eq!(status(&app), AgentAuthStatus::Error);
    app.handle_agent_auth_event(id, AgentProvider::Codex, AgentAuthEvent::Completed, "Codex", Ok(()));
    assert_eq!(status(&app), AgentAuthStatus::Connected);
    assert_eq!(
        app.authentication.as_ref().unwrap().detail,
        "Codex is now connected to Blackholes."
    );
    app.cancel_agent_authentication();
    assert!(app.authentication.is_none());
    assert_eq!(app.finish_authentication_start(AgentProvider::Codex, Err("x".to_string())), None);
    assert_eq!(message(&app), "Could not start authentication: x");
}

#[test]
fn the_output_of_a_sign_in_is_limited() {
    let mut app = application();
    let id = app.finish_authentication_start(AgentProvider::Codex, Ok(())).unwrap();
    let long = "é".repeat(40_000);
    let output = AgentAuthEvent::Output { text: long };
    app.handle_agent_auth_event(id, AgentProvider::Codex, output, "Codex", Ok(()));
    let kept = &app.authentication.as_ref().unwrap().output;
    assert_eq!(kept.len(), 32_768);
    assert!(kept.chars().all(|c| c == 'é'));
}

#[test]
fn limits_are_those_of_the_selected_account() {
    let mut app = application();
    app.refresh_plan_usage();
    assert!(!app.plan_usage.refreshing);
    app.show_settings();
    app.refresh_plan_usage();
    let generation = app.plan_usage.generation;
    assert!(app.plan_usage.refreshing);
    app.invalidate_plan_usage();
    let usage = || ProviderPlanUsage {
        subscription_type: Some("Pro".to_string()),
        rate_limits_available: true,
        windows: Vec::new(),
    };
    app.finish_plan_usage(generation, true, Some(usage()));
    assert!(app.plan_usage.active.is_none());
    app.refresh_plan_usage();
    let generation = app.plan_usage.generation;
    app.finish_plan_usage(generation, true, Some(usage()));
    assert!(app.plan_usage.active.is_some());
    assert!(app.plan_usage.updated_at.is_some());
    assert_eq!(provider_plan_name("Codex", &app.plan_usage.active, Language::English), "Codex · Pro");
    assert_eq!(provider_plan_name("Codex", &None, Language::Spanish), "No reportado");
    assert_eq!(
        provider_plan_detail(&None, Language::English),
        "Refresh to query the selected account"
    );
}

#[test]
fn windows_of_limits_have_names() {
    let window = |label: &str, minutes: Option<u64>| PlanUsageWindow {
        label: label.to_string(),
        minutes,
    };
    let label = |name: &str, minutes: Option<u64>| {
        plan_window_label(&window(name, minutes), Language::English)
    };
    assert_eq!(label("", None), "Usage limit");
    assert_eq!(label("", Some(10_080)), "Weekly limit");
    assert_eq!(label("Pro", Some(300)), "Pro · 5 h");
    assert_eq!(label("Pro", Some(90)), "Pro · 90 min");
    assert_eq!(
        usage_updated(&Some("1/02 10:00".to_string()), Language::Spanish),
        "Actualizado el 1/02 10:00"
    );
    assert_eq!(
        usage_updated(&None, Language::English),
        "Account limits have not been refreshed yet."
    );
}

#[test]
fn an_update_waits_for_what_is_open() {
    let mut app = application();
    app.sync_update_guard();
    let effects = app.take_effects();
    assert!(matches!(effects[0], Effect::GuardUpdates { blocked: false, spanish: false }));
    app.task_details_dirty.push(TASK);
    app.session.language = Language::Spanish;
    app.sync_update_guard();
    let effects = app.take_effects();
    assert!(matches!(effects[0], Effect::GuardUpdates { blocked: true, spanish: true }));
}

#[test]
fn the_settings_of_a_project_tell_what_cannot_be_read() {
    let app = application();
    let view = app
        .hydrate_project_settings_surface(
            WORKSPACE,
            Err("a".to_string()),
            Err("b".to_string()),
            &Some("true".to_string()),
        )
        .unwrap();
    let file = labels().instructions_file;
    assert_eq!(
        view.error.unwrap(),
        format!("Could not read the project {file}: a\nCould not read the shared task {file}: b")
    );
    assert!(view.terminal_skip_permissions);
    assert!(app
        .hydrate_project_settings_surface(9, Ok(String::new()), Ok(String::new()), &None)
        .is_none());
}

#[test]
fn a_sign_in_is_stopped_before_the_next() {
    let mut app = application();
    app.authenticate_agent_provider(AgentProvider::Codex);
    assert_eq!(names(&mut app), vec!["StartAuthentication"]);
    app.finish_authentication_start(AgentProvider::Codex, Ok(()));
    app.take_effects();
    app.authenticate_agent_provider(AgentProvider::Gemini);
    assert!(app.authentication.is_none());
    assert_eq!(names(&mut app), vec!["StopAuthentication", "StartAuthentication"]);
}

#[test]
fn repositories_come_in_until_one_fails() {
    let sources = || {
        vec![
            RepositorySource::Local { path: "/a".to_string() },
            RepositorySource::Github { url: "https://g/b".to_string() },
            RepositorySource::Local { path: "/c".to_string() },
        ]
    };
    let mut additions = Additions::new(sources(), RepositoryMode::Copy);
    assert!(matches!(additions.next_step(), Some(AdditionStep::Copy { path }) if path == "/a"));
    additions.finish_step(Ok(()));
    assert!(matches!(additions.next_step(), Some(AdditionStep::Download { url }) if url == "https://g/b"));
    additions.finish_step(Err("no network".to_string()));
    assert!(additions.next_step().is_none());
    assert_eq!(additions.completed(), vec!["/a"]);
    assert_eq!(additions.error.as_deref(), Some("no network"));
    additions.finish_step(Ok(()));
    assert_eq!(additions.completed(), vec!["/a"]);
    let mut additions = Additions::new(sources(), RepositoryMode::Link);
    assert!(matches!(additions.next_step(), Some(AdditionStep::Link { .. })));
    for _ in 0..3 {
        additions.finish_step(Ok(()));
    }
    assert!(additions.next_step().is_none());
    assert_eq!(additions.completed(), vec!["/a", "https://g/b", "/c"]);
    assert_eq!(
        refresh_failure("Login", "denied"),
        "Could not update the shared instructions for task 'Login': denied"
    );
}

#[test]
fn files_are_moved_back_only_where_nothing_stands_in_their_place() {
    let moved = Some("/trash/web".to_string());
    assert_eq!(files_to_move_back(&moved, false).as_deref(), Some("/trash/web"));
    assert_eq!(files_to_move_back(&moved, true), None);
    assert_eq!(files_to_move_back(&None, false), None);
    assert_eq!(removal_failure("full", &None, false, &Ok(())), "full");
    assert_eq!(removal_failure("full", &moved, false, &Ok(())), "full");
    assert_eq!(
        removal_failure("full", &moved, true, &Ok(())),
        "Could not save removal: full. Files are safe in /trash/web"
    );
    assert_eq!(
        removal_failure("full", &moved, false, &Err("busy".to_string())),
        "Could not restore after database failure. Files are safe in /trash/web: busy"
    );
}

#[test]
fn a_dialog_shows_what_its_record_holds() {
    let mut app = application();
    app.workspaces[0].repositories.push(Repository {
        id: 12,
        name: "api".to_string(),
        path: "/p/shop/api".to_string(),
        branch: None,
    });
    let kind = ModalKind::CreateTask { request_id: 5, workspace_id: WORKSPACE };
    let view = app.describe_modal(kind).unwrap();
    let offered: Vec<(u128, &str)> =
        view.repositories.iter().map(|it| (it.id, it.name.as_str())).collect();
    assert_eq!(offered, vec![(REPOSITORY, "web"), (12, "api")]);
    assert!(view.appearance.is_none());
    let kind = ModalKind::EditProject { request_id: 5, workspace_id: WORKSPACE };
    let view = app.describe_modal(kind).unwrap();
    let appearance = view.appearance.unwrap();
    assert_eq!(appearance.icon, "rocket");
    assert_eq!(appearance.color, WorkspaceColor::Mint);
    assert_eq!(appearance.color_options.len(), project_colors().len());
    assert_eq!(appearance.icon_options.len(), project_icon_options(Language::English).len());
    assert!(view.repositories.is_empty());
    let gone = ModalKind::CreateTask { request_id: 5, workspace_id: 9 };
    assert!(app.describe_modal(gone).is_none());
}
