//! What a transition asks the host to do. The host performs the requests in
//! order and reports results back through the `finish_*` methods.
use vstd::prelude::*;

use crate::app::RepositoryChange;
use crate::drafts::{
    AddTaskRepositoriesRequest, BranchAvailability, BranchCheck, CreateTaskRequest,
    RemoveTaskRepositoriesRequest,
};
use crate::history::ReviewedPush;
use crate::ids::Id;
use crate::model::{AgentKind, AppTheme, TerminalDescriptor, WorkspaceColor};
use crate::source_control::SearchOptions;

verus! {

/// What the central surface shows.
#[derive(Clone, Copy, Debug, PartialEq, Eq, Structural)]
pub enum SurfaceTarget {
    ProjectSettings { workspace_id: Id },
    Settings,
    ProjectOverview { workspace_id: Id },
    TaskDetails { task_id: Id },
    Workbench,
    Home,
}

/// A dialog over the central surface.
#[derive(Clone, Copy, Debug, PartialEq, Eq, Structural)]
pub enum ModalKind {
    EditProject { request_id: Id, workspace_id: Id },
    RemoveProject { workspace_id: Id },
    RemoveTask { task_id: Id },
    AddRepository { request_id: Id, workspace_id: Id },
    RemoveRepository { request_id: Id, workspace_id: Id, repository_id: Id },
    CreateProject { request_id: Id },
    CreateTask { request_id: Id, workspace_id: Id },
    CloseTerminal { terminal_id: Id },
}

/// A dialog of the host itself, for when there is no central surface to show one.
#[derive(Clone, Copy, Debug, PartialEq, Eq, Structural)]
pub enum Dialog {
    EditProject { workspace_id: Id },
    RemoveProject { workspace_id: Id },
    ManageProject { workspace_id: Id },
    CreateTask { workspace_id: Id },
    RemoveTask { task_id: Id },
    AddTaskRepositories { task_id: Id },
    RemoveTaskRepositories { task_id: Id },
    CloseTerminal { terminal_id: Id },
}

/// A repository that a project is to get.
#[derive(Debug)]
pub enum RepositorySource {
    Local { path: String },
    Github { url: String },
}

/// How a repository on disk gets into a project.
#[derive(Clone, Copy, Debug, PartialEq, Eq, Structural)]
pub enum RepositoryMode {
    Link,
    Copy,
}

/// A repository that was found on disk.
#[derive(Debug)]
pub struct FoundRepository {
    pub name: String,
    pub path: String,
}

/// Repositories to look at: those of a project or task, or one of them.
#[derive(Clone, Copy, Debug, PartialEq, Eq, Structural)]
pub enum GitScope {
    Project { workspace_id: Id },
    Repository { workspace_id: Id, repository_id: Id },
    Task { task_id: Id },
    TaskRepository { task_id: Id, repository_id: Id },
}

/// Where the text of an open document comes from.
#[derive(Clone, Copy, Debug, PartialEq, Eq, Structural)]
pub enum FileDocumentSource {
    Repository,
    ProjectInstructions(Id),
    ProjectTaskInstructions(Id),
}

/// The coding-agent providers that have accounts.
#[derive(Clone, Copy, Debug, PartialEq, Eq, Structural)]
pub enum AgentProvider {
    Claude,
    Codex,
    Gemini,
    OpenCode,
}

/// What a link or a notification leads to.
#[derive(Clone, Copy, Debug, PartialEq, Eq, Structural)]
pub enum NavigationTarget {
    Project { workspace_id: Id },
    Task { task_id: Id },
}

/// A request to the host.
#[derive(Debug)]
pub enum Effect {
    /// Draw the window again.
    Redraw,
    /// Write the session; `status_revision` is the one at the time of the request.
    PersistSession { status_revision: u64 },
    /// Write the record of a task, whatever comes of it.
    SaveTask { task_id: Id },
    /// Clear the status message after its time, if it is still this one.
    ExpireStatus { revision: u64 },
    PublishNavigation,
    PublishSurface { target: SurfaceTarget },
    PublishStatus,
    PublishQuickOpen,
    QuickOpenClosed,
    ThemeChanged { theme: AppTheme },
    ModalVisibility { visible: bool },
    ShowModal { kind: ModalKind },
    CloseModal,
    /// Show an error in the dialog of the request.
    ModalError { modal: Id, message: String },
    /// Tell the dialog of the request that nothing was chosen.
    ModalUnchanged { modal: Id },
    RevealAgent { terminal_id: Id },
    RevealTarget { workspace_id: Id, task_id: Id },
    ScrollToProject { workspace_id: Id },
    ScrollToTask { task_id: Id },
    FocusTerminal { terminal_id: Id },
    FocusWorkspace,
    FocusQuickOpen,
    /// Start the process of a terminal of the session.
    StartTerminal { terminal_id: Id },
    StopTerminal { terminal_id: Id },
    /// Find out which paths of the scope are directories and request their summaries.
    InspectRepositories { scope: GitScope },
    /// Find out whether the path is a directory and request its summary.
    InspectPath { path: String },
    ReadGitSummary { path: String },
    ReadSavedGitSummary { path: String, request_id: u64 },
    WatchFiles { root: String },
    StopWatching,
    ReadDirectory { root: String, path: String, request_id: u64 },
    ReadChanges { root: String, request_id: u64 },
    /// Compare what a change made of a file with what the file was before.
    ReadDiff { root: String, change: RepositoryChange, request_id: u64 },
    ReadFile { root: String, path: String, source: FileDocumentSource, request_id: u64 },
    /// Put an editor with the text into the window and give it the keyboard. The
    /// window reports what happens in it through `handle_editor_event`.
    CreateEditor { path: String, language: String, content: String, tab_size: usize },
    /// Put another text into the editor of the window.
    SetEditorText { path: String, content: String },
    /// Save the open document after the delay, unless a later change supersedes it.
    SaveFileLater { path: String, revision: u64, delay_milliseconds: u64 },
    /// Save the open document now.
    SaveFile {
        root: String,
        path: String,
        source: FileDocumentSource,
        revision: u64,
        content: String,
        report_when_inactive: bool,
    },
    IndexFiles { open_id: u64, root: String, root_label: String },
    CopyText { text: String },
    PasteIntoQuickOpen { open_id: u64, request_id: u64 },
    OpenUrl { url: String },
    ApplyTheme { theme: AppTheme },
    ReadPlanUsage { generation: u64 },
    GuardUpdates { blocked: bool, spanish: bool },
    SaveSessionBeforeUpdate,
    CheckForUpdate,
    SynchronizeIntegrations,
    RemoveTaskFiles { task_id: Id },
    RemoveProjectRecord { workspace_id: Id },
    DetectForegroundAgent { terminal_id: Id },
    /// Read the records again and open the target.
    ReloadAndOpen { link: NavigationTarget },
    OpenDialog { dialog: Dialog },
    /// Store which provider is chosen.
    StoreAgentProvider { provider: AgentProvider },
    /// Store which profile of the chosen provider is used.
    StoreAuthMode { profile: String },
    /// Sign in with the chosen provider.
    Authenticate,
    /// Change how a project appears and store it.
    UpdateProject {
        modal: Id,
        workspace_id: Id,
        name: String,
        icon: String,
        color: WorkspaceColor,
    },
    /// Find out whether a repository can be removed.
    InspectRemoval { modal: Id, workspace_id: Id, repository_id: Id },
    /// Find out what removing a repository would do.
    PlanRemoval { workspace_id: Id, repository_id: Id },
    StoreSkipPermissions { workspace_id: Id, enabled: bool },
    /// Write the instructions of a project, or those that its tasks share.
    WriteInstructions { workspace_id: Id, content: String, shared: bool },
    /// Make sure that the file of the instructions is there.
    PrepareInstructions { workspace_id: Id, shared: bool },
    /// Make sure that the files that the settings of a project show are there.
    PrepareProjectSettings { workspace_id: Id },
    /// Find the repositories in the folder of a project.
    ScanProject { workspace_id: Id },
    /// Find the directory and the account for a new terminal of the selection.
    PrepareTerminal { agent: AgentKind },
    /// Apply a change to the details of a task.
    SaveTaskDetails { task_id: Id, ticket: String, patch: String },
    /// Read the records of the tasks again; the details of a task cannot be saved.
    RefuseTaskDetails { task_id: Id, ticket: String, message: String },
    /// Tell the page of a task that its details were saved.
    TaskDetailsSaved { task_id: Id, ticket: String },
    /// Tell the page of a task why its details were not saved.
    TaskDetailsRejected { task_id: Id, ticket: String, message: String },
    ChooseProjectFolder { modal: Id },
    /// Find the repositories in a folder that was chosen for the dialog.
    ScanProjectFolder { modal: Id, path: String },
    /// Offer the repositories that were found to the dialog.
    ModalRepositories { modal: Id, found: Vec<FoundRepository> },
    /// Show the dialog what a check of a branch found.
    ModalBranches { modal: Id, branches: Vec<BranchAvailability> },
    /// Show an error in the dialog, and which sources were done before it.
    ModalPartial { modal: Id, message: String, completed: Vec<String> },
    CreateProject {
        modal: Id,
        name: String,
        sources: Vec<RepositorySource>,
        mode: RepositoryMode,
    },
    /// Copy the files of a project to a new one.
    DuplicateProject { workspace_id: Id, name: String },
    AddRepositories {
        modal: Id,
        workspace_id: Id,
        sources: Vec<RepositorySource>,
        mode: RepositoryMode,
    },
    /// Move the files of a repository away and store its project without it.
    RemoveRepositoryFiles { modal: Id, workspace_id: Id, repository_id: Id },
    CheckBranches { modal: Id, workspace_id: Id, check: BranchCheck },
    /// Create the task of the dialog.
    CreateModalTask { modal: Id, workspace_id: Id, creation: CreateTaskRequest },
    CreateTask { workspace_id: Id, creation: CreateTaskRequest },
    AddTaskRepositories { task_id: Id, addition: AddTaskRepositoriesRequest },
    DetachTaskRepositories { task_id: Id, detachment: RemoveTaskRepositoriesRequest },
    ChooseProjectsRoot,
    RevealProjectsRoot,
    InstallGitTools,
    StartAuthentication { provider: AgentProvider },
    /// Stop the process of the sign-in that is given up.
    StopAuthentication,
    SendAuthenticationInput { text: String },
    /// Give the tasks their copy of the shared instructions of the project.
    RepairTasks { workspace_id: Id, places: Vec<usize> },
    /// Start the process of a terminal that is not in the session yet.
    SpawnTerminal { descriptor: TerminalDescriptor },
    /// Read at most `limit` commits of the history.
    ReadHistory { root: String, history: Id, limit: usize },
    /// Watch the directories where git keeps the history.
    WatchHistory { root: String, directories: Vec<String> },
    ReadCommit { root: String, history: Id, commit: String, base: Option<String> },
    /// Compare what a commit made of a file with what its chosen parent had.
    ReadCommitDiff {
        root: String,
        commit: String,
        parent: Option<String>,
        change: RepositoryChange,
        request_id: u64,
    },
    Fetch { root: String, remote: String },
    /// Push what was reviewed.
    Push { root: String, remote: String, reviewed: ReviewedPush },
    /// Stage or unstage a file, or everything.
    Stage { root: String, ticket: String, token: String, file: Option<String>, staged: bool },
    Commit { root: String, ticket: String, token: String, description: String },
    /// Tell the page what came of an operation on the local changes.
    SourceControlResult {
        root: String,
        ticket: String,
        operation: String,
        created: Option<String>,
        failure: Option<String>,
    },
    /// Give up the search that is under way, if any.
    CancelSearch,
    SearchFiles { root: String, ticket: String, options: SearchOptions },
}

} // verus!
