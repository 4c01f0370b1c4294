use blackholes::app::{
    AgentLabels, AppSession, BlackholesApp, DirectoryListing, FileDiffLoadState, FileEntry,
    FileExplorerMode, RepositoryChange, RepositoryChangesState, RepositoryDiffLineKind,
    RepositoryDiffRow, RepositoryFileDiff, RepositoryGitSummary, UpdateState,
};
use blackholes::browsing::{FILE_WATCH_BATCH_PATH_LIMIT, FileWatchBatch};
use blackholes::clock::Time;
use blackholes::documents::{copy_failure, EditorEvent};
use blackholes::effects::Effect;
use blackholes::git::GitSummaryResult;
use blackholes::history::{is_history_path, CommitDetail, ReviewedPush, Snapshot};
use blackholes::labels::{FileEntryKind, NoteSaveState, RepositoryChangeKind};
use blackholes::model::{
    AgentKind, AppTheme, Language, ProjectTask, Repository, TaskRepository, Workspace,
    WorkspaceColor, WorkspaceLayout,
};
use blackholes::source_control::{SearchFile, SearchMatch, SearchOptions, SearchResult};
use blackholes::startup::Startup;
use blackholes::workbench::{DiffContent, DiffRowView, PublishedDiffRow};

const WORKSPACE: u128 = 1;
const REPOSITORY: u128 = 11;
const TASK: u128 = 21;
const START: Time = Time { seconds: 0, nanoseconds: 0 };

fn provider_name() -> String {
    format!("{:?}", AgentKind::Claude).to_lowercase()
}

fn labels() -> AgentLabels {
    AgentLabels {
        shell: "Terminal".to_string(),
        claude: format!("{:?}", AgentKind::Claude),
        codex: "Codex".to_string(),
        gemini: "Gemini".to_string(),
        open_code: "OpenCode".to_string(),
        antigravity: "Antigravity".to_string(),
        claude_name: provider_name(),
        instructions_file: format!("{}.md", provider_name().to_uppercase()),
    }
}

fn session() -> AppSession {
    AppSession {
        selected_workspace_id: None,
        selected_task_id: None,
        selected_repository_id: None,
        expanded_workspace_ids: Vec::new(),
        expanded_task_ids: Vec::new(),
        unseen_task_ids: Vec::new(),
        terminals: Vec::new(),
        docks: Vec::new(),
        agent_order: Vec::new(),
        language: Language::English,
        theme: AppTheme::Dark,
        navigation_expansion_initialized: false,
    }
}

fn workspace() -> Workspace {
    Workspace {
        id: WORKSPACE,
        label: "Shop".to_string(),
        root_path: Some("/p/shop".to_string()),
        repositories: vec![Repository {
            id: REPOSITORY,
            name: "web".to_string(),
            path: "/p/shop/web".to_string(),
            branch: Some("main".to_string()),
        }],
        icon: "rocket".to_string(),
        color: WorkspaceColor::Mint,
        layout: WorkspaceLayout::SingleRepository,
        ignored_repository_paths: Vec::new(),
        updated_at: START,
    }
}

fn task() -> ProjectTask {
    ProjectTask {
        id: TASK,
        workspace_id: WORKSPACE,
        title: "Login".to_string(),
        icon: "list-todo".to_string(),
        color: WorkspaceColor::Sky,
        branch: Some("feature/login".to_string()),
        repositories: vec![TaskRepository {
            repository_id: REPOSITORY,
            worktree_path: "/w/login/web".to_string(),
            branch: "feature/login".to_string(),
        }],
        sessions: Vec::new(),
        worktree_root_path: "/w/login".to_string(),
        sort_order: 0,
        created_at: START,
        updated_at: START,
    }
}

fn startup(session: AppSession) -> Startup {
    Startup {
        workspaces: Ok(vec![workspace()]),
        tasks: Ok(vec![task()]),
        session,
        task_workspaces: "/w".to_string(),
        agent_labels: labels(),
        update_state: UpdateState {
            enabled: true,
            error: String::new(),
            restart: false,
            busy: false,
            available: String::new(),
        },
        git_available: true,
        has_workspace_webview: true,
        has_navigation_webview: true,
        failures: Vec::new(),
    }
}

fn application() -> BlackholesApp {
    let mut app = BlackholesApp::new(startup(session()));
    app.take_effects();
    app
}

fn names(app: &mut BlackholesApp) -> Vec<String> {
    let mut result = Vec::new();
    for effect in app.take_effects() {
        let text = format!("{:?}", effect);
        let end = text.find(|c: char| !c.is_alphanumeric()).unwrap_or(text.len());
        result.push(text[..end].to_string());
    }
    result
}

const ROOT: &str = "/p/shop/web";

fn browsing() -> BlackholesApp {
    let mut app = application();
    app.open_file_explorer(ROOT.to_string(), "web".to_string());
    app.take_effects();
    app
}

fn change(name: &str) -> RepositoryChange {
    RepositoryChange {
        path: format!("{ROOT}/{name}"),
        relative_path: name.to_string(),
        previous_relative_path: None,
        kind: RepositoryChangeKind::Modified,
    }
}

fn diff() -> RepositoryFileDiff {
    RepositoryFileDiff {
        original: Some("a".to_string()),
        modified: Some("b".to_string()),
        rows: Vec::new(),
        binary: false,
        truncated: false,
    }
}

fn with_text(text: &str) -> BlackholesApp {
    let mut app = browsing();
    app.open_file_in_editor(format!("{ROOT}/a.rs"));
    let request_id = app.active_file.as_ref().unwrap().request_id;
    app.finish_file_request(ROOT, &format!("{ROOT}/a.rs"), request_id, Ok("old".to_string()));
    app.ensure_file_editor();
    app.handle_editor_event(format!("{ROOT}/a.rs"), text.to_string(), EditorEvent::Change);
    app.take_effects();
    app
}

fn saved_text(effects: &[Effect]) -> Option<String> {
    for effect in effects {
        if let Effect::SaveFile { path, content, .. } = effect {
            assert_eq!(path, &format!("{ROOT}/a.rs"));
            return Some(content.clone());
        }
    }
    None
}

#[test]
fn opening_another_file_saves_the_text() {
    let mut app = with_text("new");
    app.open_file_in_editor(format!("{ROOT}/b.rs"));
    assert_eq!(saved_text(&app.take_effects()).as_deref(), Some("new"));
    assert_eq!(app.active_file.as_ref().unwrap().path, format!("{ROOT}/b.rs"));
}

#[test]
fn closing_the_editor_saves_the_text() {
    let mut app = with_text("new");
    app.close_file_editor();
    assert_eq!(saved_text(&app.take_effects()).as_deref(), Some("new"));
    assert!(app.active_file.is_none());
}

#[test]
fn a_file_that_is_saved_is_no_longer_dirty() {
    let mut app = with_text("new");
    assert!(app.active_file.as_ref().unwrap().dirty);
    let revision = app.active_file.as_ref().unwrap().revision;
    let path = format!("{ROOT}/a.rs");
    app.finish_file_save(ROOT.to_string(), &path, revision + 1, Ok(()), true);
    assert!(app.active_file.as_ref().unwrap().dirty);
    app.finish_file_save(ROOT.to_string(), &path, revision, Ok(()), true);
    let file = app.active_file.as_ref().unwrap();
    assert!(!file.dirty);
    assert_eq!(file.save_state, NoteSaveState::Saved);
}

#[test]
fn a_late_file_changes_nothing() {
    let mut app = browsing();
    app.open_file_in_editor(format!("{ROOT}/a.rs"));
    let request_id = app.active_file.as_ref().unwrap().request_id;
    app.open_file_in_editor(format!("{ROOT}/b.rs"));
    app.take_effects();
    app.finish_file_request(ROOT, &format!("{ROOT}/a.rs"), request_id, Ok("x".to_string()));
    assert!(app.take_effects().is_empty());
}

#[test]
fn an_unknown_copy_is_told() {
    assert_eq!(
        copy_failure("Login", "denied"),
        "Could not copy the shared task instructions to task 'Login': denied"
    );
}

#[test]
fn directories_are_listed() {
    let mut app = browsing();
    let request_id = app.file_explorer.next_request_id;
    let entry = |name: &str, kind: FileEntryKind| FileEntry {
        path: format!("{ROOT}/{name}"),
        name: name.to_string(),
        hidden: false,
        kind,
    };
    let entries = vec![entry("src", FileEntryKind::Directory), entry("a.rs", FileEntryKind::File)];
    app.finish_directory_request(ROOT, ROOT.to_string(), request_id + 7, Ok(Vec::new()));
    assert!(matches!(
        app.file_explorer.directories.get(ROOT),
        Some(DirectoryListing::Loading)
    ));
    app.finish_directory_request(ROOT, ROOT.to_string(), request_id, Ok(entries));
    assert!(app.listings_are_nested());
    let rows = app.file_tree_rows();
    assert_eq!(rows.len(), 2);
    app.take_effects();
    app.activate_file_tree_row(format!("{ROOT}/src"), FileEntryKind::Directory, 1);
    assert_eq!(names(&mut app)[0], "ReadDirectory");
    assert!(app.listings_are_nested());
}

#[test]
fn a_burst_of_changes_becomes_the_root() {
    let mut batch = FileWatchBatch::new();
    let root = ROOT.to_string();
    assert!(!batch.record(&root, vec![format!("{ROOT}/.git/index")]));
    assert!(batch.record(&root, vec![format!("{ROOT}/a")]));
    assert!(!batch.record(&root, vec![format!("{ROOT}/a")]));
    let many: Vec<String> =
        (0..FILE_WATCH_BATCH_PATH_LIMIT).map(|i| format!("{ROOT}/{i}")).collect();
    assert!(batch.record(&root, many));
    assert_eq!(batch.drain(), vec![root]);
    assert!(batch.drain().is_empty());
}

#[test]
fn changes_asked_for_while_they_are_read_are_read_again() {
    let mut app = browsing();
    app.set_file_explorer_mode(FileExplorerMode::Changes);
    let request_id = app.file_explorer.changes.request_id;
    app.take_effects();
    app.request_repository_changes();
    assert!(app.take_effects().is_empty());
    app.finish_repository_changes_request(ROOT, request_id, Ok(vec![change("a.rs")]));
    assert!(matches!(
        &app.file_explorer.changes.state,
        RepositoryChangesState::Ready(changes) if changes.len() == 1
    ));
    assert_eq!(names(&mut app).last().unwrap(), "ReadChanges");
    let next = app.file_explorer.changes.request_id;
    assert_eq!(next, request_id + 1);
    app.finish_repository_changes_request(ROOT, request_id, Err("late".to_string()));
    assert!(app.take_effects().is_empty());
    app.finish_repository_changes_request(ROOT, next, Ok(vec![change("a.rs")]));
    assert!(app.take_effects().is_empty());
}

#[test]
fn a_comparison_is_read_and_closed() {
    let mut app = browsing();
    let renamed = RepositoryChange {
        previous_relative_path: Some("old.rs".to_string()),
        kind: RepositoryChangeKind::Added,
        ..change("a.rs")
    };
    app.open_repository_diff(renamed);
    let asked = app.take_effects();
    let sent = asked.iter().find_map(|effect| match effect {
        Effect::ReadDiff { change, .. } => Some(change),
        _ => None,
    });
    assert_eq!(sent.unwrap().previous_relative_path.as_deref(), Some("old.rs"));
    assert_eq!(sent.unwrap().kind, RepositoryChangeKind::Added);
    let request_id = app.active_diff.as_ref().unwrap().request_id;
    app.finish_repository_diff_request(ROOT, request_id + 1, Ok(diff()));
    assert!(matches!(app.active_diff.as_ref().unwrap().load_state, FileDiffLoadState::Loading));
    app.finish_repository_diff_request(ROOT, request_id, Ok(diff()));
    assert!(matches!(app.active_diff.as_ref().unwrap().load_state, FileDiffLoadState::Ready(_)));
    app.close_repository_diff();
    assert!(app.active_diff.is_none());
}

#[test]
fn summaries_are_read_once_and_then_again() {
    let mut app = application();
    app.request_repository_git_summary(ROOT.to_string());
    app.request_repository_git_summary(ROOT.to_string());
    assert_eq!(names(&mut app), vec!["ReadGitSummary"]);
    let details = app.repository_git_details(ROOT, Some("main"));
    assert!(details.loading);
    assert!(details.repository_tree_row().placeholder);
    app.finish_repository_git_summary(GitSummaryResult {
        path: ROOT.to_string(),
        summary: Some(RepositoryGitSummary {
            branch: Some("dev".to_string()),
            additions: 3,
            deletions: 0,
        }),
    });
    assert_eq!(names(&mut app), vec!["InspectPath", "Redraw"]);
    let marks = app.repository_git_details(ROOT, Some("main")).repository_tree_row();
    assert_eq!(marks.branch.as_deref(), Some("dev"));
    assert_eq!(marks.added.as_deref(), Some("+3"));
    assert_eq!(marks.deleted, None);
}

fn snapshot() -> Snapshot {
    Snapshot {
        head: Some("0123456789".to_string()),
        branch: Some("main".to_string()),
        upstream: Some("origin/main".to_string()),
        push_branch: Some("main".to_string()),
        commits: vec!["0123456789".to_string(), "abcdef0123".to_string()],
        git_dirs: vec![format!("{ROOT}/.git")],
    }
}

fn reviewed() -> ReviewedPush {
    ReviewedPush {
        head: Some("0123456789".to_string()),
        branch: Some("main".to_string()),
        upstream: Some("origin/main".to_string()),
        target: Some("main".to_string()),
    }
}

fn with_history() -> BlackholesApp {
    let mut app = browsing();
    app.request_git_history(false);
    let history = app.source_control.history.request.unwrap();
    app.finish_git_history(ROOT, history, Ok(snapshot()));
    app.take_effects();
    app
}

#[test]
fn more_of_the_history_is_read_up_to_its_limit() {
    let mut app = browsing();
    app.request_git_history(false);
    assert_eq!(app.source_control.history.limit, 80);
    let effects = app.take_effects();
    assert!(matches!(&effects[0], Effect::ReadHistory { limit: 80, .. }));
    app.request_git_history(true);
    assert_eq!(app.source_control.history.limit, 160);
    assert!(app.source_control.history.pending);
    assert!(app.take_effects().is_empty());
    for _ in 0..20 {
        app.request_git_history(true);
    }
    assert_eq!(app.source_control.history.limit, 1000);
}

#[test]
fn a_history_asked_for_while_it_is_read_is_read_again() {
    let mut app = browsing();
    app.request_git_history(false);
    let history = app.source_control.history.request.unwrap();
    app.request_git_history(true);
    app.take_effects();
    app.finish_git_history(ROOT, history, Ok(snapshot()));
    let all = names(&mut app);
    assert_eq!(all[0], "WatchHistory");
    assert!(all.contains(&"ReadHistory".to_string()));
    assert!(app.source_control.history.loading);
    assert_eq!(app.source_control.history.limit, 160);
}

#[test]
fn a_late_history_changes_nothing() {
    let mut app = with_history();
    app.request_git_history(false);
    app.take_effects();
    app.finish_git_history(ROOT, 1, Err("late".to_string()));
    app.finish_git_history("/other", app.source_control.history.request.unwrap(), Err("x".to_string()));
    assert!(app.take_effects().is_empty());
    assert!(app.source_control.history.error.is_none());
    assert!(app.history_root_matches(ROOT));
    assert!(!app.history_root_matches("/other"));
}

#[test]
fn only_what_was_reviewed_is_pushed() {
    let mut app = with_history();
    let mut stale = reviewed();
    stale.head = Some("other".to_string());
    app.git_remote_operation("push", "origin".to_string(), stale);
    assert!(!app.source_control.busy);
    assert_eq!(
        app.source_control.history.message.as_deref(),
        Some("The branch changed. Refresh and review the push again.")
    );
    assert!(app.source_control.history.loading);
    app.take_effects();
    app.git_remote_operation("push", "origin".to_string(), reviewed());
    assert!(app.take_effects().iter().all(|effect| !matches!(effect, Effect::Push { .. })));
    let mut app = with_history();
    app.git_remote_operation("push", "origin".to_string(), reviewed());
    assert!(app.source_control.busy);
    assert!(app.take_effects().iter().any(|effect| matches!(effect, Effect::Push { .. })));
    app.git_remote_operation("fetch", "origin".to_string(), reviewed());
    assert!(app.take_effects().is_empty());
    app.finish_git_remote_operation(ROOT, Err("rejected".to_string()));
    assert_eq!(app.status.as_ref().unwrap().message, "rejected");
    assert!(!app.source_control.busy);
    app.git_remote_operation("clone", "origin".to_string(), reviewed());
    assert!(!app.source_control.busy);
}

#[test]
fn a_commit_is_looked_at_and_left() {
    let mut app = with_history();
    app.select_git_commit("unknown".to_string(), None);
    assert!(app.take_effects().is_empty());
    app.select_git_commit("abcdef0123".to_string(), None);
    let request = app.source_control.history.detail_request.unwrap();
    let detail = CommitDetail {
        id: "abcdef0123".to_string(),
        parent: None,
        files: vec![change("a.rs")],
    };
    assert!(detail.ids_are_full());
    app.finish_git_commit(ROOT, request, Ok(detail));
    app.open_git_commit_diff("abcdef0123", "missing");
    assert!(app.active_diff.is_none());
    app.open_git_commit_diff("abcdef0123", "a.rs");
    let comparison = app.active_diff.as_ref().unwrap().comparison.as_ref().unwrap();
    assert_eq!(comparison.from, "∅");
    let asked = app.take_effects();
    assert!(asked.iter().any(|effect| match effect {
        Effect::ReadCommitDiff { commit, parent, change, .. } => {
            commit == "abcdef0123" && parent.is_none() && change.relative_path == "a.rs"
        }
        _ => false,
    }));
    let comparison = app.active_diff.as_ref().unwrap().comparison.as_ref().unwrap();
    assert_eq!(comparison.to, "abcdef01");
    assert_eq!(app.history_view().selected_file.as_deref(), Some("a.rs"));
    app.select_git_commit("abcdef0123".to_string(), None);
    assert!(app.active_diff.is_none());
    assert!(app.source_control.history.selected.is_some());
    app.select_git_commit("abcdef0123".to_string(), None);
    assert!(app.source_control.history.selected.is_none());
}

#[test]
fn files_that_tell_of_the_history() {
    assert!(is_history_path("/r/.git/HEAD"));
    assert!(is_history_path("/r/.git/refs/heads/main"));
    assert!(!is_history_path("/r/.git/index.lock"));
    assert!(!is_history_path("/r/.git/refs/heads/main.lock"));
    assert!(!is_history_path("/r/.git/references/x"));
    assert!(!is_history_path("/r/.git/objects/ab"));
}

#[test]
fn a_change_of_the_history_is_read_while_changes_are_shown() {
    let mut app = with_history();
    assert!(app.history_changed(ROOT));
    assert!(app.take_effects().is_empty());
    app.set_file_explorer_mode(FileExplorerMode::Changes);
    app.take_effects();
    assert!(app.history_changed(ROOT));
    assert!(names(&mut app).contains(&"ReadHistory".to_string()));
    assert!(!app.history_changed("/other"));
}

fn answer(app: &mut BlackholesApp) -> Option<String> {
    for effect in app.take_effects() {
        if let Effect::SourceControlResult { failure, .. } = effect {
            return failure;
        }
    }
    None
}

#[test]
fn operations_on_local_changes_are_refused_with_a_reason() {
    let act = |app: &mut BlackholesApp, operation: &str| {
        app.source_control_action(
            "1".to_string(),
            operation.to_string(),
            "t".to_string(),
            Some("a.rs".to_string()),
            None,
        )
    };
    let mut app = browsing();
    act(&mut app, "revert");
    assert_eq!(answer(&mut app).as_deref(), Some("Unknown Git operation."));
    let mut app = with_text("new");
    act(&mut app, "stage");
    assert_eq!(
        answer(&mut app).as_deref(),
        Some("The file is still saving. Retry when it has finished.")
    );
    act(&mut app, "commit");
    assert!(app.source_control.busy);
    app.take_effects();
    act(&mut app, "unstage");
    assert_eq!(
        answer(&mut app).as_deref(),
        Some("Wait for the current Git operation to finish.")
    );
    app.source_control.scm_info = Some("main".to_string());
    app.finish_source_control_action("/elsewhere", "1", "commit", Ok(None));
    assert!(app.source_control.scm_info.is_some());
    app.finish_source_control_action(
        &format!("{ROOT}/"),
        "1",
        "commit",
        Ok(Some("abc".to_string())),
    );
    assert!(app.source_control.scm_info.is_none());
    assert!(!app.source_control.busy);
}

#[test]
fn staging_says_which_way() {
    let mut app = browsing();
    app.source_control_action(
        "1".to_string(),
        "unstage".to_string(),
        "t".to_string(),
        None,
        None,
    );
    let effects = app.take_effects();
    assert!(effects.iter().any(
        |effect| matches!(effect, Effect::Stage { staged: false, file: None, .. })
    ));
}

fn options(query: &str) -> SearchOptions {
    SearchOptions { query: query.to_string(), rest: "{\"regex\":true}".to_string() }
}

#[test]
fn a_search_finds_places() {
    let mut app = browsing();
    app.search_repository("s1".to_string(), options("x"));
    assert!(app.source_control.search.loading);
    app.take_effects();
    app.search_repository("s2".to_string(), options("y"));
    let asked = app.take_effects();
    let sent = asked.iter().find_map(|effect| match effect {
        Effect::SearchFiles { options, .. } => Some(options),
        _ => None,
    });
    assert_eq!(sent.unwrap().query, "y");
    assert_eq!(sent.unwrap().rest, "{\"regex\":true}");
    assert_eq!(app.source_control.search.options.as_ref().unwrap().rest, "{\"regex\":true}");
    let result = || SearchResult {
        files: vec![SearchFile {
            path: "src/a.rs".to_string(),
            matches: vec![SearchMatch { line: 3, column: 5, end_column: 6 }],
        }],
        rest: "{}".to_string(),
    };
    app.finish_search(ROOT, "s1", Ok(result()));
    assert!(app.source_control.search.result.is_none());
    app.finish_search(ROOT, "s2", Ok(result()));
    app.open_search_match("s2", "src/a.rs", 3, 4);
    assert!(app.source_control.reveal.is_none());
    app.open_search_match("s2", "src/a.rs", 3, 5);
    let reveal = app.source_control.reveal.as_ref().unwrap();
    assert_eq!(reveal.path, format!("{ROOT}/src/a.rs"));
    assert_eq!((reveal.line, reveal.column, reveal.end_column), (3, 5, 6));
    assert_eq!(app.active_file.as_ref().unwrap().path, format!("{ROOT}/src/a.rs"));
    app.search_repository("s3".to_string(), options(""));
    assert!(!app.source_control.search.loading);
    assert_eq!(names(&mut app).last().unwrap(), "Redraw");
}

#[test]
fn a_double_click_expands_once() {
    let mut app = browsing();
    let path = format!("{ROOT}/src");
    app.activate_file_tree_row(path.clone(), FileEntryKind::Directory, 1);
    assert!(app.file_explorer.expanded.contains(&path));
    app.activate_file_tree_row(path.clone(), FileEntryKind::Directory, 2);
    assert!(app.file_explorer.expanded.contains(&path));
    app.activate_file_tree_row(path.clone(), FileEntryKind::Directory, 1);
    assert!(!app.file_explorer.expanded.contains(&path));
}

#[test]
fn a_save_is_seen_by_the_last_read() {
    let mut app = application();
    let summary = |additions: u64| GitSummaryResult {
        path: ROOT.to_string(),
        summary: Some(RepositoryGitSummary { branch: None, additions, deletions: 0 }),
    };
    app.request_repository_git_summary(ROOT.to_string());
    app.refresh_saved_repository_git_summary(ROOT.to_string());
    let first = app.git.next_save_request_id;
    app.refresh_saved_repository_git_summary(ROOT.to_string());
    let second = app.git.next_save_request_id;
    app.take_effects();
    app.finish_saved_repository_git_summary(first, summary(1));
    assert!(names(&mut app).is_empty());
    app.finish_saved_repository_git_summary(second, summary(2));
    assert_eq!(app.repository_git_details(ROOT, None).additions, 2);
    app.take_effects();
    app.finish_repository_git_summary(summary(0));
    assert_eq!(names(&mut app), vec!["InspectPath", "Redraw"]);
}

#[test]
fn a_root_is_known_however_it_is_written() {
    let mut app = browsing();
    let written = "/p//shop/web/";
    assert!(app.history_root_matches(written));
    app.activate_file_tree_row(format!("{ROOT}/src"), FileEntryKind::Directory, 1);
    assert!(app.file_explorer.expanded.contains("/p/shop//web/src/"));
    app.open_repository_diff(change("a.rs"));
    let request_id = app.active_diff.as_ref().unwrap().request_id;
    app.finish_repository_diff_request(written, request_id, Ok(diff()));
    assert!(matches!(app.active_diff.as_ref().unwrap().load_state, FileDiffLoadState::Ready(_)));
}

#[test]
fn the_rows_of_a_comparison_are_drawn_in_order() {
    let mut app = browsing();
    app.open_repository_diff(change("a.rs"));
    let request_id = app.active_diff.as_ref().unwrap().request_id;
    let read = RepositoryFileDiff {
        original: None,
        modified: None,
        rows: vec![
            RepositoryDiffRow::Hunk { old_start: 3, new_start: 4, header: "fn a".to_string() },
            RepositoryDiffRow::Line {
                old_number: None,
                new_number: Some(4),
                old_text: String::new(),
                new_text: "let b;".to_string(),
                kind: RepositoryDiffLineKind::Added,
            },
        ],
        binary: false,
        truncated: true,
    };
    app.finish_repository_diff_request(ROOT, request_id, Ok(read));
    let view = app.render_repository_diff().unwrap();
    let DiffContent::Rows { rows, truncated } = view.content else {
        panic!("the comparison has rows");
    };
    assert_eq!(truncated, Some("Large diff truncated at 20,000 rows"));
    assert_eq!(rows.len(), 2);
    let DiffRowView::Hunk { committed_head, local_head } = &rows[0] else {
        panic!("a hunk comes first");
    };
    assert_eq!((committed_head.number.as_str(), local_head.number.as_str()), ("3", "4"));
    assert_eq!(committed_head.header, "fn a");
    assert_eq!((committed_head.divider, local_head.divider), (Some(0x3c4f72), None));
    let DiffRowView::Line { committed, local } = &rows[1] else {
        panic!("a line follows");
    };
    assert_eq!((committed.number.as_str(), local.number.as_str()), ("", "4"));
    assert_eq!((committed.style.prefix, local.style.prefix), (" ", "+"));
    assert_eq!((committed.style.background, local.style.background), (0x20262e, 0x273a31));
    assert_eq!((committed.divider, local.divider), (Some(0x38404b), None));
    assert_eq!(local.text, "let b;");
    assert!(app.listings_are_nested());
    let published = app.hydrate_workbench_surface().diff.unwrap();
    assert_eq!(published.state, "ready");
    assert!(published.truncated);
    assert_eq!(published.rows.len(), 2);
    assert!(matches!(
        &published.rows[0],
        PublishedDiffRow::Hunk { row_type: "hunk", old_start: 3, new_start: 4, .. }
    ));
    assert!(matches!(
        &published.rows[1],
        PublishedDiffRow::Line { row_type: "line", kind: "added", new_number: Some(4), .. }
    ));
}

#[test]
fn a_file_of_a_commit_is_compared_with_the_chosen_parent() {
    let mut app = with_history();
    app.select_git_commit("abcdef0123".to_string(), None);
    let request = app.source_control.history.detail_request.unwrap();
    let detail = CommitDetail {
        id: "abcdef0123".to_string(),
        parent: Some("0123456789".to_string()),
        files: vec![change("a.rs")],
    };
    app.finish_git_commit(ROOT, request, Ok(detail));
    app.take_effects();
    app.open_git_commit_diff("abcdef0123", "a.rs");
    let asked = app.take_effects();
    assert!(asked.iter().any(|effect| match effect {
        Effect::ReadCommitDiff { parent, change, .. } => {
            parent.as_deref() == Some("0123456789")
                && change.kind == RepositoryChangeKind::Modified
        }
        _ => false,
    }));
    assert_eq!(app.active_diff.unwrap().comparison.unwrap().from, "01234567");
}

#[test]
fn closing_the_explorer_forgets_the_root() {
    let mut app = with_history();
    app.search_repository("s1".to_string(), options("x"));
    app.source_control.scm_info = Some("main".to_string());
    app.request_git_history(false);
    assert!(app.source_control.history.loading);
    assert!(app.source_control.history.watching);
    app.source_control.busy = true;
    app.take_effects();
    app.close_file_explorer();
    assert_eq!(names(&mut app), vec!["StopWatching", "Redraw"]);
    assert!(app.source_control.history.snapshot.is_none());
    assert!(!app.source_control.history.loading);
    assert!(!app.source_control.history.watching);
    assert!(app.source_control.search.options.is_none());
    assert!(app.source_control.reveal.is_none());
    assert!(app.source_control.scm_info.is_none());
    assert!(app.source_control.busy);
    app.open_file_explorer("/p/shop/api".to_string(), "api".to_string());
    app.take_effects();
    app.request_git_history(false);
    assert!(app
        .take_effects()
        .iter()
        .any(|effect| matches!(effect, Effect::ReadHistory { root, .. } if root == "/p/shop/api")));
}

#[test]
fn a_text_from_the_page_goes_to_the_editor_and_is_saved() {
    let mut app = browsing();
    let path = format!("{ROOT}/a.rs");
    app.open_file_in_editor(path.clone());
    let request_id = app.active_file.as_ref().unwrap().request_id;
    app.update_file_content(request_id, "early".to_string());
    app.finish_file_request(ROOT, &path, request_id, Ok("old".to_string()));
    app.take_effects();
    assert!(app.ensure_file_editor());
    assert!(!app.ensure_file_editor());
    assert!(matches!(
        &app.take_effects()[..],
        [Effect::CreateEditor { language, content, tab_size: 4, .. }]
            if language == "rust" && content == "old"
    ));
    app.update_file_content(request_id + 1, "other".to_string());
    assert!(app.take_effects().is_empty());
    app.update_file_content(request_id, "new".to_string());
    assert!(matches!(
        &app.take_effects()[..],
        [Effect::SetEditorText { path: set, content }] if *set == path && content == "new"
    ));
    app.handle_editor_event(path.clone(), "new".to_string(), EditorEvent::Focus);
    app.handle_editor_event(path.clone(), "new".to_string(), EditorEvent::PressEnter);
    assert!(app.take_effects().is_empty());
    assert!(!app.active_file.as_ref().unwrap().dirty);
    app.handle_editor_event(path.clone(), "new".to_string(), EditorEvent::Change);
    assert!(matches!(
        app.take_effects()[0],
        Effect::SaveFileLater { revision: 1, delay_milliseconds: 650, .. }
    ));
    app.handle_editor_event(path.clone(), "new".to_string(), EditorEvent::Blur);
    assert!(matches!(
        app.take_effects()[0],
        Effect::SaveFileLater { revision: 2, delay_milliseconds: 0, .. }
    ));
    app.flush_active_file();
    assert!(app
        .take_effects()
        .iter()
        .any(|effect| matches!(effect, Effect::SaveFile { content, .. } if content == "new")));
}
