//! Commands from the central surface.
use vstd::prelude::*;
use vstd::string::*;

use crate::app::{BlackholesApp, FileExplorerMode, RepositoryChange, RepositoryChangesState};
use crate::drafts::CreateTaskRequest;
use crate::effects::{AgentProvider, Effect, RepositoryMode, RepositorySource};
use crate::ids::{insert_unique, other_than, remove_id, with_id, without_id, Id};
use crate::labels::FileEntryKind;
use crate::model::{
    find_task, find_workspace, task_at, task_is, workspace_at, workspace_is, AppTheme, Language,
    ProjectTask, Workspace, WorkspaceColor,
};
use crate::projects::{terminal_ids_of, terminal_of_project};
use crate::search::{first_where, lemma_first_where};
use crate::text::{characters, same_text, starts_with};

verus! {

/// A command from the central surface.
#[derive(Debug)]
pub enum WorkspaceCommand {
    Ready,
    CopyText { text: String },
    OpenUrl { url: String },
    SetLanguage { language: String },
    SetTheme { theme: AppTheme },
    SetAgentProvider { provider: AgentProvider },
    CloseSettings,
    RefreshPlanUsage,
    InstallGitTools,
    RefreshRuntimeStatus,
    RefreshExternalIntegrations,
    SetAgentAuthMode { profile: String },
    AuthenticateAgentProvider,
    SubmitAgentAuth { value: String },
    CancelAgentAuth,
    DismissAppModal,
    CreateTaskModal {
        request_id: Id,
        workspace_id: Id,
        creation: CreateTaskRequest,
        check_only: bool,
    },
    ChooseProjectModalFolder { request_id: Id },
    SubmitCreateProject {
        request_id: Id,
        name: String,
        sources: Vec<RepositorySource>,
        mode: RepositoryMode,
    },
    SubmitEditProject {
        request_id: Id,
        workspace_id: Id,
        name: String,
        icon: String,
        color: WorkspaceColor,
    },
    SubmitAddRepositories {
        request_id: Id,
        workspace_id: Id,
        sources: Vec<RepositorySource>,
        mode: RepositoryMode,
    },
    ConfirmRemoveRepository { request_id: Id },
    ConfirmRemoveProject { workspace_id: Id },
    ConfirmCloseTerminal { terminal_id: Id },
    ConfirmRemoveTask { task_id: Id },
    RevealProjectsRoot,
    ChooseProjectsRoot,
    SetProjectTerminalSkipPermissions { workspace_id: Id, enabled: bool },
    UpdateProjectInstructions { workspace_id: Id, content: String },
    UpdateProjectTaskInstructions { workspace_id: Id, content: String },
    SaveTaskDetails { task_id: Id, ticket: String, patch: String },
    TaskDetailsDirty { task_id: Id, dirty: bool },
    AddTaskRepositories { task_id: Id },
    RemoveTaskRepositories { task_id: Id },
    FocusTerminal { terminal_id: Id },
    OpenTaskDetails { workspace_id: Id, task_id: Id },
    OpenProjectRepository { workspace_id: Id, repository_id: Id },
    RefreshFileExplorer,
    CloseFileExplorer,
    SetFileExplorerMode { view: String },
    ActivateFileRow { path: String, kind: String, click_count: usize },
    OpenRepositoryDiff { path: String },
    CloseRepositoryDiff,
    UpdateFileContent { document: u64, content: String },
    SaveActiveFile,
    CloseFileEditor,
    OpenProjectInstructions { workspace_id: Id },
    OpenProjectTaskInstructions { workspace_id: Id },
    QuickOpenPaste { open_id: u64, paste_id: u64 },
    QuickOpenQueryChanged { open_id: u64, query: String },
    QuickOpenActivate { open_id: u64, result_index: usize },
    QuickOpenDismiss { open_id: u64 },
    DismissStatus,
}

// ---------------------------------------------------------------------------
// Links and rows
// ---------------------------------------------------------------------------
/// The link is one that leads out of the application.
pub open spec fn is_outside_link(url: Seq<char>) -> bool {
    "https://"@.is_prefix_of(url) || "http://"@.is_prefix_of(url) || "mailto:"@.is_prefix_of(url)
        || "tel:"@.is_prefix_of(url)
}

fn leads_outside(url: &str) -> (result: bool)
    ensures
        result == is_outside_link(url@),
{
    let source = characters(url);
    starts_with(&source, "https://") || starts_with(&source, "http://") || starts_with(
        &source,
        "mailto:",
    ) || starts_with(&source, "tel:")
}

/// The kind of a row of the explorer; none for the rows that nothing can be done with.
pub open spec fn row_kind(kind: Seq<char>) -> Option<FileEntryKind> {
    if kind == "directory"@ {
        Some(FileEntryKind::Directory)
    } else if kind == "file"@ {
        Some(FileEntryKind::File)
    } else if kind == "symlink"@ {
        Some(FileEntryKind::Symlink)
    } else {
        None
    }
}

fn read_row_kind(kind: &str) -> (result: Option<FileEntryKind>)
    ensures
        result == row_kind(kind@),
{
    if same_text(kind, "directory") {
        Some(FileEntryKind::Directory)
    } else if same_text(kind, "file") {
        Some(FileEntryKind::File)
    } else if same_text(kind, "symlink") {
        Some(FileEntryKind::Symlink)
    } else {
        None
    }
}

pub open spec fn change_is(path: Seq<char>) -> spec_fn(RepositoryChange) -> bool {
    |change: RepositoryChange| change.relative_path@ == path
}

/// Where the change of a file stands among the changes that are known.
pub open spec fn change_at(changes: RepositoryChangesState, path: Seq<char>) -> Option<RepositoryChange> {
    match changes {
        RepositoryChangesState::Ready(items) => match first_where(items@, change_is(path), 0) {
            Some(at) => Some(items@[at]),
            None => None,
        },
        _ => None,
    }
}

fn find_change(changes: &RepositoryChangesState, path: &str) -> (result: Option<RepositoryChange>)
    ensures
        result == change_at(*changes, path@),
{
    if let RepositoryChangesState::Ready(items) = changes {
        let ghost test = change_is(path@);
        let mut index: usize = 0;
        while index < items.len()
            invariant
                *changes == RepositoryChangesState::Ready(*items),
                test == change_is(path@),
                index <= items@.len(),
                first_where(items@, test, 0) == first_where(items@, test, index as int),
            decreases items@.len() - index,
        {
            if same_text(items[index].relative_path.as_str(), path) {
                return Some(items[index].duplicate());
            }
            index += 1;
        }
    }
    None
}

// ---------------------------------------------------------------------------
// Details of tasks
// ---------------------------------------------------------------------------
impl BlackholesApp {
    /// `after` is `before` with the details of a task to be saved, or refused
    /// where the task or its project is gone.
    pub open spec fn saves_details(before: Self, after: Self, task_id: Id, ticket: String, patch: String) -> bool {
        if before.task_and_project(task_id) is Some {
            Self::requests(before, after, seq![Effect::SaveTaskDetails { task_id, ticket, patch }])
        } else {
            Self::refuses_details(before, after, task_id, ticket)
        }
    }

    /// `after` is `before` with the details of a task refused.
    pub open spec fn refuses_details(before: Self, after: Self, task_id: Id, ticket: String) -> bool {
        exists|message: String|
            message@ == "Task is no longer available"@ && #[trigger] Self::requests(
                before,
                after,
                seq![Effect::RefuseTaskDetails { task_id, ticket, message }],
            )
    }

    /// The page of a task sent a change of its details.
    pub fn save_task_details(&mut self, task_id: Id, ticket: String, patch: String)
        ensures
            Self::saves_details(*old(self), *final(self), task_id, ticket, patch),
    {
        let ghost before = *self;
        let ghost asked = ticket;
        if self.find_task_and_project(task_id).is_some() {
            self.emit(Effect::SaveTaskDetails { task_id, ticket, patch });
        } else {
            let message = "Task is no longer available".to_string();
            let ghost told = message;
            self.emit(Effect::RefuseTaskDetails { task_id, ticket, message });
            assert(Self::requests(
                before,
                *self,
                seq![Effect::RefuseTaskDetails { task_id, ticket: asked, message: told }],
            ));
        }
    }

    /// `after` is `before` with the saved details of a task taken in.
    pub open spec fn takes_details(before: Self, after: Self, task_id: Id, task: ProjectTask) -> bool {
        &&& after.tasks@ == match task_at(before.tasks@, task_id) {
            Some(at) => before.tasks@.update(at, task),
            None => before.tasks@,
        }
        &&& after.task_details_dirty@ == without_id(before.task_details_dirty@, task_id)
        &&& after == (BlackholesApp {
            tasks: after.tasks,
            task_details_dirty: after.task_details_dirty,
            ..before
        })
    }

    /// `after` is `before` with the saved details of a task taken in and shown.
    pub open spec fn shows_details(before: Self, after: Self, task_id: Id, ticket: String, task: ProjectTask) -> bool {
        exists|taken: BlackholesApp| #[trigger]
            Self::takes_details(before, taken, task_id, task) && Self::requests(
                taken,
                after,
                seq![Effect::TaskDetailsSaved { task_id, ticket }] + taken.publishes_surface()
                    + seq![Effect::PublishNavigation, Effect::Redraw],
            )
    }

    /// `after` is `before` with the records of the tasks read again, where they
    /// could be.
    pub open spec fn rereads_tasks(before: Self, after: Self, reloaded: Option<Vec<ProjectTask>>) -> bool {
        after == match reloaded {
            Some(tasks) => BlackholesApp { tasks, ..before },
            None => before,
        }
    }

    /// `after` is `before` with the page of a task told why its details were not
    /// saved.
    pub open spec fn rejects_details(
        before: Self,
        after: Self,
        task_id: Id,
        ticket: String,
        message: String,
        reloaded: Option<Vec<ProjectTask>>,
    ) -> bool {
        exists|read: BlackholesApp| #[trigger]
            Self::rereads_tasks(before, read, reloaded) && Self::requests(
                read,
                after,
                seq![Effect::TaskDetailsRejected { task_id, ticket, message }]
                    + read.publishes_surface(),
            )
    }

    /// `after` is `before` with the answer to a change of details taken in.
    pub open spec fn finishes_details(
        before: Self,
        after: Self,
        task_id: Id,
        ticket: String,
        result: Result<ProjectTask, String>,
        reloaded: Option<Vec<ProjectTask>>,
    ) -> bool {
        match result {
            Ok(task) => Self::shows_details(before, after, task_id, ticket, task),
            Err(message) => Self::rejects_details(
                before,
                after,
                task_id,
                ticket,
                message,
                reloaded,
            ),
        }
    }

    /// The details of a task were saved, or were not; in that case `reloaded` is
    /// what the records hold.
    pub fn finish_task_details(
        &mut self,
        task_id: Id,
        ticket: String,
        result: Result<ProjectTask, String>,
        reloaded: Option<Vec<ProjectTask>>,
    )
        ensures
            Self::finishes_details(
                *old(self),
                *final(self),
                task_id,
                ticket,
                result,
                reloaded,
            ),
    {
        let ghost before = *self;
        let ghost (asked, records) = (ticket, reloaded);
        match result {
            Ok(task) => {
                let ghost wanted = task;
                if let Some(at) = find_task(&self.tasks, task_id) {
                    self.tasks[at] = task;
                    assert(self.tasks@ =~= before.tasks@.update(at as int, wanted));
                }
                remove_id(&mut self.task_details_dirty, task_id);
                let ghost taken = *self;
                assert(Self::takes_details(before, taken, task_id, wanted));
                self.emit(Effect::TaskDetailsSaved { task_id, ticket });
                self.hydrate_active_workspace_surface();
                self.emit(Effect::PublishNavigation);
                self.notify();
                assert(self.effects@ =~= taken.effects@ + (seq![
                    Effect::TaskDetailsSaved { task_id, ticket: asked },
                ] + taken.publishes_surface() + seq![Effect::PublishNavigation, Effect::Redraw]));
            },
            Err(message) => {
                let ghost told = message;
                if let Some(tasks) = reloaded {
                    self.tasks = tasks;
                }
                let ghost read = *self;
                assert(Self::rereads_tasks(before, read, records));
                self.emit(Effect::TaskDetailsRejected { task_id, ticket, message });
                self.hydrate_active_workspace_surface();
                assert(self.effects@ =~= read.effects@ + (seq![
                    Effect::TaskDetailsRejected { task_id, ticket: asked, message: told },
                ] + read.publishes_surface()));
            },
        }
    }

    /// `after` is `before` with it noted whether the page of a task holds changes
    /// that are not saved.
    pub open spec fn notes_dirty(before: Self, after: Self, task_id: Id, dirty: bool) -> bool {
        exists|noted: BlackholesApp|
            {
                &&& noted.task_details_dirty@ == if dirty {
                    with_id(before.task_details_dirty@, task_id)
                } else {
                    without_id(before.task_details_dirty@, task_id)
                }
                &&& noted == (BlackholesApp {
                    task_details_dirty: noted.task_details_dirty,
                    ..before
                })
                &&& #[trigger] Self::requests(noted, after, seq![noted.guards_update()])
            }
    }

    /// Notes whether the page of a task holds changes that are not saved.
    pub fn note_task_details_dirty(&mut self, task_id: Id, dirty: bool)
        ensures
            Self::notes_dirty(*old(self), *final(self), task_id, dirty),
    {
        if dirty {
            insert_unique(&mut self.task_details_dirty, task_id);
        } else {
            remove_id(&mut self.task_details_dirty, task_id);
        }
        let ghost noted = *self;
        self.sync_update_guard();
        assert(Self::requests(noted, *self, seq![noted.guards_update()]));
    }
}

// ---------------------------------------------------------------------------
// Confirmations
// ---------------------------------------------------------------------------
impl BlackholesApp {
    /// The requests that hand the keyboard back once no dialog waits.
    pub open spec fn refocuses_if_closed(&self) -> Seq<Effect> {
        if self.modals.project_request is None && self.modals.task_request is None {
            self.refocuses()
        } else {
            seq![]
        }
    }

    /// `after` is `before` with the dialogs closed by the user.
    pub open spec fn dismissed_by_user(before: Self, after: Self) -> bool {
        exists|closed: BlackholesApp| #[trigger]
            Self::dismisses(before, closed) && Self::requests(
                closed,
                after,
                closed.refocuses_if_closed(),
            )
    }

    fn dismiss_by_user(&mut self)
        ensures
            Self::dismissed_by_user(*old(self), *final(self)),
    {
        let ghost before = *self;
        self.dismiss_app_modal();
        let ghost closed = *self;
        assert(Self::dismisses(before, closed));
        if self.modals.project_request.is_none() && self.modals.task_request.is_none() {
            self.refocus_terminal();
        } else {
            assert(self.effects@ =~= closed.effects@ + Seq::<Effect>::empty());
        }
    }

    /// `after` is `before` with the removal of a project begun, its dialog closed.
    pub open spec fn confirms_project(before: Self, after: Self, workspace_id: Id) -> bool {
        exists|closed: BlackholesApp, asked: BlackholesApp| #[trigger]
            Self::closes_all(
                before,
                closed,
                terminal_ids_of(before.session.terminals@.filter(terminal_of_project(workspace_id))),
                true,
            ) && #[trigger] Self::requests(
                closed,
                asked,
                seq![Effect::RemoveProjectRecord { workspace_id }],
            ) && Self::dismisses(asked, after)
    }

    /// `after` is `before` with a terminal closed, if the user was asked about it.
    pub open spec fn confirms_close(before: Self, after: Self, terminal_id: Id) -> bool {
        if before.modals.agent_removal == Some(terminal_id) {
            exists|closed: BlackholesApp| #[trigger]
                Self::closes_terminal(before, closed, terminal_id, true) && Self::dismisses(
                    closed,
                    after,
                )
        } else {
            after == before
        }
    }

    /// `after` is `before` with the removal of a task begun, where it is known.
    pub open spec fn starts_known_removal(before: Self, after: Self, task_id: Id) -> bool {
        match task_at(before.tasks@, task_id) {
            None => after == before,
            Some(at) => Self::starts_removal(
                before,
                after,
                task_id,
                before.tasks@[at].worktree_root_path@,
            ),
        }
    }

    /// `after` is `before` with a task removed, if the user was asked about it.
    pub open spec fn confirms_task(before: Self, after: Self, task_id: Id) -> bool {
        if before.modals.task_removal == Some(task_id) {
            exists|started: BlackholesApp| #[trigger]
                Self::starts_known_removal(before, started, task_id) && Self::dismisses(
                    started,
                    after,
                )
        } else {
            after == before
        }
    }
}

// ---------------------------------------------------------------------------
// The commands
// ---------------------------------------------------------------------------
impl BlackholesApp {
    /// `after` is `before` with a request made, if there is reason to.
    pub open spec fn asks_if(before: Self, after: Self, wanted: bool, effect: Effect) -> bool {
        if wanted {
            Self::requests(before, after, seq![effect])
        } else {
            after == before
        }
    }

    fn ask_if(&mut self, wanted: bool, effect: Effect)
        ensures
            Self::asks_if(*old(self), *final(self), wanted, effect),
    {
        if wanted {
            self.emit(effect);
        }
    }

    /// A project is known.
    pub open spec fn knows(&self, workspace_id: Id) -> bool {
        workspace_at(self.workspaces@, workspace_id) is Some
    }

    fn knows_workspace(&self, workspace_id: Id) -> (result: bool)
        ensures
            result == self.knows(workspace_id),
    {
        find_workspace(&self.workspaces, workspace_id).is_some()
    }

    /// `after` is `before` with the surface and the status published.
    pub open spec fn greets_surface(before: Self, after: Self) -> bool {
        Self::requests(before, after, before.publishes_surface() + seq![Effect::PublishStatus])
    }

    /// `after` is `before` with the sign-in given up.
    pub open spec fn cancels_sign_in(before: Self, after: Self) -> bool {
        exists|stopped: BlackholesApp| #[trigger]
            Self::stops_authentication(before, stopped) && Self::requests(
                stopped,
                after,
                seq![Effect::Redraw],
            )
    }

    /// `after` is `before` with what the user entered handed to the sign-in.
    pub open spec fn enters_code(before: Self, after: Self, value: Seq<char>) -> bool {
        if before.authentication is None || crate::text::is_blank(value) {
            after == before
        } else {
            exists|text: String|
                text@ == crate::text::trimmed(value) && #[trigger] Self::requests(
                    before,
                    after,
                    seq![Effect::SendAuthenticationInput { text }],
                )
        }
    }

    /// `after` is `before` with repositories wanted for a task.
    pub open spec fn wants_additions(before: Self, after: Self, task_id: Id) -> bool {
        match before.task_and_project(task_id) {
            None => after == before,
            Some((at, project)) => Self::offers_additions(
                before,
                after,
                task_id,
                before.tasks@[at],
                before.workspaces@[project].repositories@,
            ),
        }
    }

    /// `after` is `before` with repositories of a task to be taken away.
    pub open spec fn wants_detachment(before: Self, after: Self, task_id: Id) -> bool {
        match before.task_and_project(task_id) {
            None => after == before,
            Some((at, project)) => Self::offers_detachment(before, after, task_id, before.tasks@[at]),
        }
    }

    /// `after` is `before` with a command obeyed that a dialog sent.
    pub open spec fn obeys_dialog(before: Self, after: Self, command: WorkspaceCommand) -> bool {
        match command {
            WorkspaceCommand::DismissAppModal => Self::dismissed_by_user(before, after),
            WorkspaceCommand::CreateTaskModal { request_id, workspace_id, creation, check_only } => {
                Self::submits_task(before, after, request_id, workspace_id, creation, check_only)
            },
            WorkspaceCommand::ChooseProjectModalFolder { request_id } => Self::asks_if(
                before,
                after,
                before.takes_folder(request_id),
                Effect::ChooseProjectFolder { modal: request_id },
            ),
            WorkspaceCommand::SubmitCreateProject { request_id, name, sources, mode } => {
                Self::submits_project(before, after, request_id, name@, sources, mode)
            },
            WorkspaceCommand::SubmitEditProject { request_id, workspace_id, name, icon, color } => {
                Self::asks_if(
                    before,
                    after,
                    before.modals.appearance_request == Some((request_id, workspace_id)),
                    Effect::UpdateProject { modal: request_id, workspace_id, name, icon, color },
                )
            },
            WorkspaceCommand::SubmitAddRepositories { request_id, workspace_id, sources, mode } => {
                Self::submits_additions(before, after, request_id, workspace_id, sources, mode)
            },
            WorkspaceCommand::ConfirmRemoveRepository { request_id } => match before.removal_of(
                request_id,
            ) {
                Some(removal) => Self::requests(
                    before,
                    after,
                    seq![
                        Effect::InspectRemoval {
                            modal: request_id,
                            workspace_id: removal.workspace_id,
                            repository_id: removal.repository_id,
                        },
                    ],
                ),
                None => after == before,
            },
            WorkspaceCommand::ConfirmRemoveProject { workspace_id } => Self::confirms_project(
                before,
                after,
                workspace_id,
            ),
            WorkspaceCommand::ConfirmCloseTerminal { terminal_id } => Self::confirms_close(
                before,
                after,
                terminal_id,
            ),
            WorkspaceCommand::ConfirmRemoveTask { task_id } => Self::confirms_task(
                before,
                after,
                task_id,
            ),
            _ => after == before,
        }
    }

    fn obey_dialog(&mut self, command: WorkspaceCommand)
        ensures
            Self::obeys_dialog(*old(self), *final(self), command),
    {
        let ghost before = *self;
        match command {
            WorkspaceCommand::DismissAppModal => self.dismiss_by_user(),
            WorkspaceCommand::CreateTaskModal { request_id, workspace_id, creation, check_only } => {
                self.handle_create_task_modal(request_id, workspace_id, creation, check_only)
            },
            WorkspaceCommand::ChooseProjectModalFolder { request_id } => {
                self.choose_project_modal_folder(request_id)
            },
            WorkspaceCommand::SubmitCreateProject { request_id, name, sources, mode } => {
                self.submit_create_project_modal(request_id, name, sources, mode)
            },
            WorkspaceCommand::SubmitEditProject { request_id, workspace_id, name, icon, color } => {
                let awaited: bool = match self.modals.appearance_request {
                    Some((request, project)) => request == request_id && project == workspace_id,
                    None => false,
                };
                self.ask_if(
                    awaited,
                    Effect::UpdateProject { modal: request_id, workspace_id, name, icon, color },
                )
            },
            WorkspaceCommand::SubmitAddRepositories { request_id, workspace_id, sources, mode } => {
                self.submit_add_repositories(request_id, workspace_id, sources, mode)
            },
            WorkspaceCommand::ConfirmRemoveRepository { request_id } => {
                let (workspace_id, repository_id): (Id, Id) =
                    match &self.modals.repository_removal {
                    Some(removal) => {
                        if removal.request_id != request_id || self.modals.project_request
                            != Some(request_id) || self.modals.project_submitting {
                            return ;
                        }
                        (removal.workspace_id, removal.repository_id)
                    },
                    None => {
                        return ;
                    },
                };
                self.emit(
                    Effect::InspectRemoval { modal: request_id, workspace_id, repository_id },
                );
            },
            WorkspaceCommand::ConfirmRemoveProject { workspace_id } => {
                self.remove_project_reference(workspace_id);
                self.dismiss_app_modal();
            },
            WorkspaceCommand::ConfirmCloseTerminal { terminal_id } => {
                if self.modals.agent_removal == Some(terminal_id) {
                    self.close_terminal(terminal_id);
                    assert(Self::closes_terminal(before, *self, terminal_id, true));
                    self.dismiss_app_modal();
                }
            },
            WorkspaceCommand::ConfirmRemoveTask { task_id } => {
                if self.modals.task_removal == Some(task_id) {
                    let _ = self.start_remove_task(task_id);
                    assert(Self::starts_known_removal(before, *self, task_id));
                    self.dismiss_app_modal();
                }
            },
            _ => {},
        }
    }

    /// `after` is `before` with a command obeyed that a page of settings or of a
    /// task sent.
    pub open spec fn obeys_page(before: Self, after: Self, command: WorkspaceCommand) -> bool {
        match command {
            WorkspaceCommand::SetLanguage { language } => Self::speaks(
                before,
                after,
                if language@ == "es"@ {
                    Language::Spanish
                } else {
                    Language::English
                },
            ),
            WorkspaceCommand::SetTheme { theme } => Self::changes_theme(before, after, theme),
            WorkspaceCommand::SetAgentProvider { provider } => Self::requests(
                before,
                after,
                seq![Effect::StoreAgentProvider { provider }],
            ),
            WorkspaceCommand::CloseSettings => Self::closes_settings(before, after),
            WorkspaceCommand::RefreshPlanUsage => Self::reads_plan(before, after),
            WorkspaceCommand::InstallGitTools => Self::requests(
                before,
                after,
                seq![Effect::InstallGitTools],
            ),
            WorkspaceCommand::RefreshRuntimeStatus => Self::requests(
                before,
                after,
                before.publishes_surface(),
            ),
            WorkspaceCommand::RefreshExternalIntegrations => Self::synchronizes(before, after),
            WorkspaceCommand::SetAgentAuthMode { profile } => Self::requests(
                before,
                after,
                seq![Effect::StoreAuthMode { profile }],
            ),
            WorkspaceCommand::AuthenticateAgentProvider => Self::requests(
                before,
                after,
                seq![Effect::Authenticate],
            ),
            WorkspaceCommand::SubmitAgentAuth { value } => Self::enters_code(before, after, value@),
            WorkspaceCommand::CancelAgentAuth => Self::cancels_sign_in(before, after),
            WorkspaceCommand::RevealProjectsRoot => Self::requests(
                before,
                after,
                seq![Effect::RevealProjectsRoot],
            ),
            WorkspaceCommand::ChooseProjectsRoot => Self::requests(
                before,
                after,
                seq![Effect::ChooseProjectsRoot],
            ),
            WorkspaceCommand::SetProjectTerminalSkipPermissions { workspace_id, enabled } => {
                Self::asks_if(
                    before,
                    after,
                    before.knows(workspace_id),
                    Effect::StoreSkipPermissions { workspace_id, enabled },
                )
            },
            WorkspaceCommand::UpdateProjectInstructions { workspace_id, content } => Self::asks_if(
                before,
                after,
                before.knows(workspace_id),
                Effect::WriteInstructions { workspace_id, content, shared: false },
            ),
            WorkspaceCommand::UpdateProjectTaskInstructions { workspace_id, content } => {
                Self::asks_if(
                    before,
                    after,
                    before.knows(workspace_id),
                    Effect::WriteInstructions { workspace_id, content, shared: true },
                )
            },
            WorkspaceCommand::SaveTaskDetails { task_id, ticket, patch } => Self::saves_details(
                before,
                after,
                task_id,
                ticket,
                patch,
            ),
            WorkspaceCommand::TaskDetailsDirty { task_id, dirty } => Self::notes_dirty(
                before,
                after,
                task_id,
                dirty,
            ),
            WorkspaceCommand::AddTaskRepositories { task_id } => Self::wants_additions(
                before,
                after,
                task_id,
            ),
            WorkspaceCommand::RemoveTaskRepositories { task_id } => Self::wants_detachment(
                before,
                after,
                task_id,
            ),
            WorkspaceCommand::OpenProjectInstructions { workspace_id } => Self::asks_if(
                before,
                after,
                before.knows(workspace_id),
                Effect::PrepareInstructions { workspace_id, shared: false },
            ),
            WorkspaceCommand::OpenProjectTaskInstructions { workspace_id } => Self::asks_if(
                before,
                after,
                before.knows(workspace_id),
                Effect::PrepareInstructions { workspace_id, shared: true },
            ),
            _ => after == before,
        }
    }

    fn obey_page(&mut self, command: WorkspaceCommand)
        ensures
            Self::obeys_page(*old(self), *final(self), command),
    {
        match command {
            WorkspaceCommand::SetLanguage { language } => {
                if same_text(language.as_str(), "es") {
                    self.set_language(Language::Spanish)
                } else {
                    self.set_language(Language::English)
                }
            },
            WorkspaceCommand::SetTheme { theme } => self.set_theme(theme),
            WorkspaceCommand::SetAgentProvider { provider } => self.emit(
                Effect::StoreAgentProvider { provider },
            ),
            WorkspaceCommand::CloseSettings => self.close_settings(),
            WorkspaceCommand::RefreshPlanUsage => self.refresh_plan_usage(),
            WorkspaceCommand::InstallGitTools => self.emit(Effect::InstallGitTools),
            WorkspaceCommand::RefreshRuntimeStatus => self.hydrate_active_workspace_surface(),
            WorkspaceCommand::RefreshExternalIntegrations => self.refresh_external_integrations(),
            WorkspaceCommand::SetAgentAuthMode { profile } => self.emit(
                Effect::StoreAuthMode { profile },
            ),
            WorkspaceCommand::AuthenticateAgentProvider => self.emit(Effect::Authenticate),
            WorkspaceCommand::SubmitAgentAuth { value } => self.submit_agent_auth_value(
                value.as_str(),
            ),
            WorkspaceCommand::CancelAgentAuth => self.cancel_agent_authentication(),
            WorkspaceCommand::RevealProjectsRoot => self.emit(Effect::RevealProjectsRoot),
            WorkspaceCommand::ChooseProjectsRoot => self.emit(Effect::ChooseProjectsRoot),
            WorkspaceCommand::SetProjectTerminalSkipPermissions { workspace_id, enabled } => {
                let known: bool = self.knows_workspace(workspace_id);
                self.ask_if(known, Effect::StoreSkipPermissions { workspace_id, enabled })
            },
            WorkspaceCommand::UpdateProjectInstructions { workspace_id, content } => {
                let known: bool = self.knows_workspace(workspace_id);
                self.ask_if(
                    known,
                    Effect::WriteInstructions { workspace_id, content, shared: false },
                )
            },
            WorkspaceCommand::UpdateProjectTaskInstructions { workspace_id, content } => {
                let known: bool = self.knows_workspace(workspace_id);
                self.ask_if(
                    known,
                    Effect::WriteInstructions { workspace_id, content, shared: true },
                )
            },
            WorkspaceCommand::SaveTaskDetails { task_id, ticket, patch } => self.save_task_details(
                task_id,
                ticket,
                patch,
            ),
            WorkspaceCommand::TaskDetailsDirty { task_id, dirty } => self.note_task_details_dirty(
                task_id,
                dirty,
            ),
            WorkspaceCommand::AddTaskRepositories { task_id } => self.open_add_task_repositories(
                task_id,
            ),
            WorkspaceCommand::RemoveTaskRepositories { task_id } => {
                self.open_remove_task_repositories(task_id)
            },
            WorkspaceCommand::OpenProjectInstructions { workspace_id } => {
                let known: bool = self.knows_workspace(workspace_id);
                self.ask_if(known, Effect::PrepareInstructions { workspace_id, shared: false })
            },
            WorkspaceCommand::OpenProjectTaskInstructions { workspace_id } => {
                let known: bool = self.knows_workspace(workspace_id);
                self.ask_if(known, Effect::PrepareInstructions { workspace_id, shared: true })
            },
            _ => {},
        }
    }

    /// `after` is `before` with a command obeyed that the workbench sent.
    pub open spec fn obeys_workbench(before: Self, after: Self, command: WorkspaceCommand) -> bool {
        match command {
            WorkspaceCommand::FocusTerminal { terminal_id } => Self::focuses_terminal(
                before,
                after,
                terminal_id,
            ),
            WorkspaceCommand::OpenTaskDetails { workspace_id, task_id } => Self::shows_task(
                before,
                after,
                workspace_id,
                task_id,
            ),
            WorkspaceCommand::OpenProjectRepository { workspace_id, repository_id } => {
                Self::selects_repository(before, after, workspace_id, None, repository_id)
            },
            WorkspaceCommand::RefreshFileExplorer => Self::refreshes_explorer(before, after),
            WorkspaceCommand::CloseFileExplorer => Self::closes_explorer(before, after),
            WorkspaceCommand::SetFileExplorerMode { view } => Self::sets_mode(
                before,
                after,
                if view@ == "changes"@ {
                    FileExplorerMode::Changes
                } else {
                    FileExplorerMode::Files
                },
            ),
            WorkspaceCommand::ActivateFileRow { path, kind, click_count } => match row_kind(kind@) {
                Some(entry) => Self::activates_row(before, after, path, entry, click_count),
                None => after == before,
            },
            WorkspaceCommand::OpenRepositoryDiff { path } => match change_at(
                before.file_explorer.changes.state,
                path@,
            ) {
                Some(change) => Self::opens_diff(before, after, change),
                None => after == before,
            },
            WorkspaceCommand::CloseRepositoryDiff => Self::closes_diff(before, after),
            WorkspaceCommand::UpdateFileContent { document, content } => Self::sets_content(
                before,
                after,
                document,
                content,
            ),
            WorkspaceCommand::SaveActiveFile => Self::flushes(before, after),
            WorkspaceCommand::CloseFileEditor => Self::closes_file(before, after),
            _ => after == before,
        }
    }

    fn obey_workbench(&mut self, command: WorkspaceCommand)
        ensures
            Self::obeys_workbench(*old(self), *final(self), command),
    {
        match command {
            WorkspaceCommand::FocusTerminal { terminal_id } => self.focus_terminal(terminal_id),
            WorkspaceCommand::OpenTaskDetails { workspace_id, task_id } => {
                self.show_task_details_for(workspace_id, task_id)
            },
            WorkspaceCommand::OpenProjectRepository { workspace_id, repository_id } => {
                self.select_repository_target(workspace_id, None, repository_id)
            },
            WorkspaceCommand::RefreshFileExplorer => self.refresh_file_explorer(),
            WorkspaceCommand::CloseFileExplorer => self.close_file_explorer(),
            WorkspaceCommand::SetFileExplorerMode { view } => {
                if same_text(view.as_str(), "changes") {
                    self.set_file_explorer_mode(FileExplorerMode::Changes)
                } else {
                    self.set_file_explorer_mode(FileExplorerMode::Files)
                }
            },
            WorkspaceCommand::ActivateFileRow { path, kind, click_count } => {
                if let Some(entry) = read_row_kind(kind.as_str()) {
                    self.activate_file_tree_row(path, entry, click_count);
                }
            },
            WorkspaceCommand::OpenRepositoryDiff { path } => {
                if let Some(change) = find_change(&self.file_explorer.changes.state, path.as_str()) {
                    self.open_repository_diff(change);
                }
            },
            WorkspaceCommand::CloseRepositoryDiff => self.close_repository_diff(),
            WorkspaceCommand::UpdateFileContent { document, content } => self.update_file_content(
                document,
                content,
            ),
            WorkspaceCommand::SaveActiveFile => self.flush_active_file(),
            WorkspaceCommand::CloseFileEditor => self.close_file_editor(),
            _ => {},
        }
    }

    /// `after` is `before` with a command obeyed that the palette sent, or one
    /// that concerns no part in particular.
    pub open spec fn obeys_palette(before: Self, after: Self, command: WorkspaceCommand) -> bool {
        match command {
            WorkspaceCommand::Ready => Self::greets_surface(before, after),
            WorkspaceCommand::CopyText { text } => Self::asks_if(
                before,
                after,
                text@.len() > 0,
                Effect::CopyText { text },
            ),
            WorkspaceCommand::OpenUrl { url } => Self::asks_if(
                before,
                after,
                is_outside_link(url@),
                Effect::OpenUrl { url },
            ),
            WorkspaceCommand::QuickOpenPaste { open_id, paste_id } => Self::asks_if(
                before,
                after,
                before.has_palette(open_id),
                Effect::PasteIntoQuickOpen { open_id, request_id: paste_id },
            ),
            WorkspaceCommand::QuickOpenQueryChanged { open_id, query } => Self::changes_query(
                before,
                after,
                open_id,
                query,
            ),
            WorkspaceCommand::QuickOpenActivate { open_id, result_index } => Self::activates_in(
                before,
                after,
                open_id,
                result_index as int,
            ),
            WorkspaceCommand::QuickOpenDismiss { open_id } => Self::dismisses_palette(
                before,
                after,
                open_id,
            ),
            WorkspaceCommand::DismissStatus => Self::dismisses_status(before, after),
            _ => after == before,
        }
    }

    fn obey_palette(&mut self, command: WorkspaceCommand)
        requires
            command is QuickOpenActivate ==> old(self).quick_open_fits(),
        ensures
            Self::obeys_palette(*old(self), *final(self), command),
    {
        match command {
            WorkspaceCommand::Ready => {
                self.hydrate_active_workspace_surface();
                self.emit(Effect::PublishStatus);
                assert(self.effects@ =~= old(self).effects@ + (old(self).publishes_surface()
                    + seq![Effect::PublishStatus]));
            },
            WorkspaceCommand::CopyText { text } => {
                let wanted: bool = text.as_str().unicode_len() > 0;
                self.ask_if(wanted, Effect::CopyText { text })
            },
            WorkspaceCommand::OpenUrl { url } => {
                let wanted: bool = leads_outside(url.as_str());
                self.ask_if(wanted, Effect::OpenUrl { url })
            },
            WorkspaceCommand::QuickOpenPaste { open_id, paste_id } => {
                let wanted: bool = self.palette_is_open(open_id);
                self.ask_if(wanted, Effect::PasteIntoQuickOpen { open_id, request_id: paste_id })
            },
            WorkspaceCommand::QuickOpenQueryChanged { open_id, query } => {
                self.change_quick_open_query(open_id, query)
            },
            WorkspaceCommand::QuickOpenActivate { open_id, result_index } => {
                self.activate_quick_open_result(open_id, result_index)
            },
            WorkspaceCommand::QuickOpenDismiss { open_id } => self.dismiss_quick_open(open_id),
            WorkspaceCommand::DismissStatus => self.dismiss_status(),
            _ => {},
        }
    }
}

/// The part of the application that a command concerns.
#[derive(Clone, Copy, Debug, PartialEq, Eq, Structural)]
pub enum CommandArea {
    Dialog,
    Page,
    Workbench,
    Palette,
}

/// The part of the application that a command concerns.
pub open spec fn area_of(command: WorkspaceCommand) -> CommandArea {
    match command {
        WorkspaceCommand::DismissAppModal => CommandArea::Dialog,
        WorkspaceCommand::CreateTaskModal { .. } => CommandArea::Dialog,
        WorkspaceCommand::ChooseProjectModalFolder { .. } => CommandArea::Dialog,
        WorkspaceCommand::SubmitCreateProject { .. } => CommandArea::Dialog,
        WorkspaceCommand::SubmitEditProject { .. } => CommandArea::Dialog,
        WorkspaceCommand::SubmitAddRepositories { .. } => CommandArea::Dialog,
        WorkspaceCommand::ConfirmRemoveRepository { .. } => CommandArea::Dialog,
        WorkspaceCommand::ConfirmRemoveProject { .. } => CommandArea::Dialog,
        WorkspaceCommand::ConfirmCloseTerminal { .. } => CommandArea::Dialog,
        WorkspaceCommand::ConfirmRemoveTask { .. } => CommandArea::Dialog,
        WorkspaceCommand::FocusTerminal { .. } => CommandArea::Workbench,
        WorkspaceCommand::OpenTaskDetails { .. } => CommandArea::Workbench,
        WorkspaceCommand::OpenProjectRepository { .. } => CommandArea::Workbench,
        WorkspaceCommand::RefreshFileExplorer => CommandArea::Workbench,
        WorkspaceCommand::CloseFileExplorer => CommandArea::Workbench,
        WorkspaceCommand::SetFileExplorerMode { .. } => CommandArea::Workbench,
        WorkspaceCommand::ActivateFileRow { .. } => CommandArea::Workbench,
        WorkspaceCommand::OpenRepositoryDiff { .. } => CommandArea::Workbench,
        WorkspaceCommand::CloseRepositoryDiff => CommandArea::Workbench,
        WorkspaceCommand::UpdateFileContent { .. } => CommandArea::Workbench,
        WorkspaceCommand::SaveActiveFile => CommandArea::Workbench,
        WorkspaceCommand::CloseFileEditor => CommandArea::Workbench,
        WorkspaceCommand::Ready => CommandArea::Palette,
        WorkspaceCommand::CopyText { .. } => CommandArea::Palette,
        WorkspaceCommand::OpenUrl { .. } => CommandArea::Palette,
        WorkspaceCommand::QuickOpenPaste { .. } => CommandArea::Palette,
        WorkspaceCommand::QuickOpenQueryChanged { .. } => CommandArea::Palette,
        WorkspaceCommand::QuickOpenActivate { .. } => CommandArea::Palette,
        WorkspaceCommand::QuickOpenDismiss { .. } => CommandArea::Palette,
        WorkspaceCommand::DismissStatus => CommandArea::Palette,
        _ => CommandArea::Page,
    }
}

fn find_area(command: &WorkspaceCommand) -> (result: CommandArea)
    ensures
        result == area_of(*command),
{
    match command {
        WorkspaceCommand::DismissAppModal => CommandArea::Dialog,
        WorkspaceCommand::CreateTaskModal { .. } => CommandArea::Dialog,
        WorkspaceCommand::ChooseProjectModalFolder { .. } => CommandArea::Dialog,
        WorkspaceCommand::SubmitCreateProject { .. } => CommandArea::Dialog,
        WorkspaceCommand::SubmitEditProject { .. } => CommandArea::Dialog,
        WorkspaceCommand::SubmitAddRepositories { .. } => CommandArea::Dialog,
        WorkspaceCommand::ConfirmRemoveRepository { .. } => CommandArea::Dialog,
        WorkspaceCommand::ConfirmRemoveProject { .. } => CommandArea::Dialog,
        WorkspaceCommand::ConfirmCloseTerminal { .. } => CommandArea::Dialog,
        WorkspaceCommand::ConfirmRemoveTask { .. } => CommandArea::Dialog,
        WorkspaceCommand::FocusTerminal { .. } => CommandArea::Workbench,
        WorkspaceCommand::OpenTaskDetails { .. } => CommandArea::Workbench,
        WorkspaceCommand::OpenProjectRepository { .. } => CommandArea::Workbench,
        WorkspaceCommand::RefreshFileExplorer => CommandArea::Workbench,
        WorkspaceCommand::CloseFileExplorer => CommandArea::Workbench,
        WorkspaceCommand::SetFileExplorerMode { .. } => CommandArea::Workbench,
        WorkspaceCommand::ActivateFileRow { .. } => CommandArea::Workbench,
        WorkspaceCommand::OpenRepositoryDiff { .. } => CommandArea::Workbench,
        WorkspaceCommand::CloseRepositoryDiff => CommandArea::Workbench,
        WorkspaceCommand::UpdateFileContent { .. } => CommandArea::Workbench,
        WorkspaceCommand::SaveActiveFile => CommandArea::Workbench,
        WorkspaceCommand::CloseFileEditor => CommandArea::Workbench,
        WorkspaceCommand::Ready => CommandArea::Palette,
        WorkspaceCommand::CopyText { .. } => CommandArea::Palette,
        WorkspaceCommand::OpenUrl { .. } => CommandArea::Palette,
        WorkspaceCommand::QuickOpenPaste { .. } => CommandArea::Palette,
        WorkspaceCommand::QuickOpenQueryChanged { .. } => CommandArea::Palette,
        WorkspaceCommand::QuickOpenActivate { .. } => CommandArea::Palette,
        WorkspaceCommand::QuickOpenDismiss { .. } => CommandArea::Palette,
        WorkspaceCommand::DismissStatus => CommandArea::Palette,
        _ => CommandArea::Page,
    }
}

impl BlackholesApp {
    /// `after` is `before` with a command from the central surface obeyed.
    pub open spec fn obeys(before: Self, after: Self, command: WorkspaceCommand) -> bool {
        match area_of(command) {
            CommandArea::Dialog => Self::obeys_dialog(before, after, command),
            CommandArea::Page => Self::obeys_page(before, after, command),
            CommandArea::Workbench => Self::obeys_workbench(before, after, command),
            CommandArea::Palette => Self::obeys_palette(before, after, command),
        }
    }

    /// Obeys a command from the central surface.
    pub fn handle_workspace_command(&mut self, command: WorkspaceCommand)
        requires
            command is QuickOpenActivate ==> old(self).quick_open_fits(),
        ensures
            Self::obeys(*old(self), *final(self), command),
    {
        match find_area(&command) {
            CommandArea::Dialog => self.obey_dialog(command),
            CommandArea::Page => self.obey_page(command),
            CommandArea::Workbench => self.obey_workbench(command),
            CommandArea::Palette => self.obey_palette(command),
        }
    }
}

// ---------------------------------------------------------------------------
// Laws
// ---------------------------------------------------------------------------
/// A change of a task's details is handed on exactly as it was sent, where the
/// task and its project are known; where the task is not known, the page is told
/// so and nothing is saved.
pub proof fn law_details_sent(
    before: BlackholesApp,
    after: BlackholesApp,
    task_id: Id,
    ticket: String,
    patch: String,
    at: int,
    project: int,
)
    requires
        BlackholesApp::saves_details(before, after, task_id, ticket, patch),
    ensures
        after.tasks == before.tasks,
        0 <= at < before.tasks@.len() && before.tasks@[at].id == task_id && (forall|i: int|
            0 <= i < at ==> (#[trigger] before.tasks@[i]).id != task_id) && 0 <= project
            < before.workspaces@.len() && before.workspaces@[project].id
            == before.tasks@[at].workspace_id ==> BlackholesApp::asked(before, after) == seq![
            Effect::SaveTaskDetails { task_id, ticket, patch },
        ],
        (forall|i: int| 0 <= i < before.tasks@.len() ==> (#[trigger] before.tasks@[i]).id != task_id)
            ==> BlackholesApp::asked(before, after).len() == 1 && (
        BlackholesApp::asked(before, after)[0] matches Effect::RefuseTaskDetails {
            task_id: refused,
            ticket: answered,
            message,
        } && refused == task_id && answered == ticket && message@ == "Task is no longer available"@),
{
    let is_task = task_is(task_id);
    lemma_first_where(before.tasks@, is_task, 0);
    if 0 <= at < before.tasks@.len() && before.tasks@[at].id == task_id {
        assert(is_task(before.tasks@[at]));
        let is_project = workspace_is(before.tasks@[at].workspace_id);
        lemma_first_where(before.workspaces@, is_project, 0);
        if 0 <= project < before.workspaces@.len() && before.workspaces@[project].id
            == before.tasks@[at].workspace_id {
            assert(is_project(before.workspaces@[project]));
        }
    }
    assert(BlackholesApp::asked(before, after) =~= after.effects@.subrange(
        before.effects@.len() as int,
        after.effects@.len() as int,
    ));
}

/// Saved details stand in the place of the task that they were saved for and no
/// other task changes; the page is told, and its changes count as saved. Details
/// that were not saved leave the mark that there are changes, the page is told
/// why, and the tasks are what the records hold.
pub proof fn law_details_answered(
    before: BlackholesApp,
    after: BlackholesApp,
    task_id: Id,
    ticket: String,
    result: Result<ProjectTask, String>,
    reloaded: Option<Vec<ProjectTask>>,
    at: int,
)
    requires
        BlackholesApp::finishes_details(before, after, task_id, ticket, result, reloaded),
        0 <= at < before.tasks@.len(),
        forall|i: int| 0 <= i < at ==> (#[trigger] before.tasks@[i]).id != task_id,
    ensures
        after.workspaces == before.workspaces,
        result matches Ok(task) ==> {
            &&& after.tasks@.len() == before.tasks@.len()
            &&& before.tasks@[at].id == task_id ==> after.tasks@[at] == task
            &&& forall|i: int|
                0 <= i < before.tasks@.len() && before.tasks@[i].id != task_id ==> (
                #[trigger] after.tasks@[i]) == before.tasks@[i]
            &&& !after.task_details_dirty@.contains(task_id)
            &&& forall|other: Id|
                other != task_id ==> (#[trigger] after.task_details_dirty@.contains(other)
                    <==> before.task_details_dirty@.contains(other))
            &&& BlackholesApp::asked(before, after).contains(
                Effect::TaskDetailsSaved { task_id, ticket },
            )
            &&& BlackholesApp::asked(before, after).contains(Effect::PublishNavigation)
        },
        result matches Err(message) ==> {
            &&& after.task_details_dirty == before.task_details_dirty
            &&& after.tasks == match reloaded {
                Some(tasks) => tasks,
                None => before.tasks,
            }
            &&& BlackholesApp::asked(before, after).len() > 0
            &&& BlackholesApp::asked(before, after)[0] == (Effect::TaskDetailsRejected {
                task_id,
                ticket,
                message,
            })
        },
{
    let is_task = task_is(task_id);
    lemma_first_where(before.tasks@, is_task, 0);
    match result {
        Ok(task) => {
            if before.tasks@[at].id == task_id {
                assert(is_task(before.tasks@[at]));
            }
            let taken = choose|taken: BlackholesApp| #[trigger]
                BlackholesApp::takes_details(before, taken, task_id, task)
                    && BlackholesApp::requests(
                    taken,
                    after,
                    seq![Effect::TaskDetailsSaved { task_id, ticket }] + taken.publishes_surface()
                        + seq![Effect::PublishNavigation, Effect::Redraw],
                );
            let asked = BlackholesApp::asked(before, after);
            assert(asked[0] == Effect::TaskDetailsSaved { task_id, ticket });
            assert(asked[asked.len() - 2] is PublishNavigation);
            let marks = before.task_details_dirty@;
            assert forall|other: Id| #[trigger]
                after.task_details_dirty@.contains(other) <==> other != task_id && marks.contains(
                    other,
                ) by {
                let keep = other_than(task_id);
                if other != task_id && marks.contains(other) {
                    let place = choose|place: int|
                        0 <= place < marks.len() && marks[place] == other;
                    marks.lemma_filter_contains(keep, place);
                }
                if marks.filter(keep).contains(other) {
                    marks.lemma_filter_contains_rev(keep, other);
                    let place = choose|place: int|
                        0 <= place < marks.filter(keep).len() && marks.filter(keep)[place] == other;
                    marks.lemma_filter_pred(keep, place);
                }
            }
        },
        Err(message) => {
            let read = choose|read: BlackholesApp| #[trigger]
                BlackholesApp::rereads_tasks(before, read, reloaded) && BlackholesApp::requests(
                    read,
                    after,
                    seq![Effect::TaskDetailsRejected { task_id, ticket, message }]
                        + read.publishes_surface(),
                );
            assert(read.effects == before.effects);
        },
    }
}

/// A page that holds changes is marked, one that holds none is not, and the marks
/// of other pages stay.
pub proof fn law_details_marked(
    before: BlackholesApp,
    after: BlackholesApp,
    task_id: Id,
    dirty: bool,
    other: Id,
)
    requires
        BlackholesApp::notes_dirty(before, after, task_id, dirty),
    ensures
        after.task_details_dirty@.contains(task_id) == dirty,
        other != task_id ==> (after.task_details_dirty@.contains(other)
            <==> before.task_details_dirty@.contains(other)),
        after.tasks == before.tasks,
{
    let marks = before.task_details_dirty@;
    let keep = other_than(task_id);
    crate::ids::law_insert_unique(marks, task_id);
    if marks.contains(other) {
        let place = choose|place: int| 0 <= place < marks.len() && marks[place] == other;
        if other != task_id {
            marks.lemma_filter_contains(keep, place);
        }
        assert(with_id(marks, task_id)[place] == other);
    }
    if marks.filter(keep).contains(other) {
        marks.lemma_filter_contains_rev(keep, other);
        let place = choose|place: int|
            0 <= place < marks.filter(keep).len() && marks.filter(keep)[place] == other;
        marks.lemma_filter_pred(keep, place);
    }
    if with_id(marks, task_id).contains(other) && other != task_id && !marks.contains(task_id) {
        let place = choose|place: int|
            0 <= place < marks.push(task_id).len() && marks.push(task_id)[place] == other;
        assert(marks[place] == other);
    }
    if marks.filter(keep).contains(task_id) {
        let place = choose|place: int|
            0 <= place < marks.filter(keep).len() && marks.filter(keep)[place] == task_id;
        marks.lemma_filter_pred(keep, place);
    }
}

/// Only a terminal or a task that the user was asked about goes when a dialog is
/// confirmed, and a confirmed removal closes the dialog.
pub proof fn law_confirmed_when_asked(
    before: BlackholesApp,
    after: BlackholesApp,
    command: WorkspaceCommand,
)
    requires
        BlackholesApp::obeys(before, after, command),
    ensures
        command matches WorkspaceCommand::ConfirmCloseTerminal { terminal_id } ==> {
            &&& before.modals.agent_removal != Some(terminal_id) ==> after == before
            &&& before.modals.agent_removal == Some(terminal_id) ==> {
                &&& forall|i: int|
                    0 <= i < before.session.terminals@.len() && (
                    #[trigger] before.session.terminals@[i]).id != terminal_id
                        ==> after.session.terminals@.contains(before.session.terminals@[i])
                &&& before.running@.contains(terminal_id) ==> after.effects@.contains(
                    Effect::StopTerminal { terminal_id },
                )
            }
        },
        command matches WorkspaceCommand::ConfirmRemoveTask { task_id } ==> {
            &&& before.modals.task_removal != Some(task_id) ==> after == before
            &&& before.modals.task_removal == Some(task_id) && (exists|i: int|
                0 <= i < before.tasks@.len() && (#[trigger] before.tasks@[i]).id == task_id)
                && before.session.terminals@.len() > 0 ==> after.effects@.contains(
                Effect::RemoveTaskFiles { task_id },
            )
        },
{
    match command {
        WorkspaceCommand::ConfirmCloseTerminal { terminal_id } => {
            if before.modals.agent_removal == Some(terminal_id) {
                let closed = choose|closed: BlackholesApp| #[trigger]
                    BlackholesApp::closes_terminal(before, closed, terminal_id, true)
                        && BlackholesApp::dismisses(closed, after);
                crate::launching::law_closing_keeps_others(before, closed, terminal_id, true);
                crate::modals::law_dialogs_dismissed(closed, after);
                if before.running@.contains(terminal_id) {
                    let wanted = Effect::StopTerminal { terminal_id };
                    let asked = BlackholesApp::asked(before, closed);
                    let place = choose|place: int| 0 <= place < asked.len() && asked[place] == wanted;
                    assert(after.effects@[before.effects@.len() + place] == wanted);
                }
            }
        },
        WorkspaceCommand::ConfirmRemoveTask { task_id } => {
            if before.modals.task_removal == Some(task_id) {
                let started = choose|started: BlackholesApp| #[trigger]
                    BlackholesApp::starts_known_removal(before, started, task_id)
                        && BlackholesApp::dismisses(started, after);
                let is_task = task_is(task_id);
                lemma_first_where(before.tasks@, is_task, 0);
                if (exists|i: int|
                    0 <= i < before.tasks@.len() && (#[trigger] before.tasks@[i]).id == task_id)
                    && before.session.terminals@.len() > 0 {
                    let i = choose|i: int|
                        0 <= i < before.tasks@.len() && (#[trigger] before.tasks@[i]).id == task_id;
                    assert(is_task(before.tasks@[i]));
                    let at = task_at(before.tasks@, task_id)->0;
                    crate::removal::law_task_removal_started(
                        before,
                        started,
                        task_id,
                        before.tasks@[at].worktree_root_path@,
                        0,
                    );
                    let wanted = Effect::RemoveTaskFiles { task_id };
                    assert(after.effects@[started.effects@.len() - 2] == wanted);
                }
            }
        },
        _ => {},
    }
}

/// Settings of a project are written only for a project that is known, and
/// exactly as they were entered.
pub proof fn law_project_settings_written(
    before: BlackholesApp,
    after: BlackholesApp,
    command: WorkspaceCommand,
    project: int,
)
    requires
        BlackholesApp::obeys(before, after, command),
        0 <= project < before.workspaces@.len(),
    ensures
        command matches WorkspaceCommand::SetProjectTerminalSkipPermissions {
            workspace_id,
            enabled,
        } ==> {
            &&& before.workspaces@[project].id == workspace_id ==> BlackholesApp::asked(
                before,
                after,
            ) == seq![Effect::StoreSkipPermissions { workspace_id, enabled }]
            &&& (forall|i: int|
                0 <= i < before.workspaces@.len() ==> (#[trigger] before.workspaces@[i]).id
                    != workspace_id) ==> after == before
        },
        command matches WorkspaceCommand::UpdateProjectInstructions { workspace_id, content } ==> {
            &&& before.workspaces@[project].id == workspace_id ==> BlackholesApp::asked(
                before,
                after,
            ) == seq![Effect::WriteInstructions { workspace_id, content, shared: false }]
            &&& (forall|i: int|
                0 <= i < before.workspaces@.len() ==> (#[trigger] before.workspaces@[i]).id
                    != workspace_id) ==> after == before
        },
        command matches WorkspaceCommand::UpdateProjectTaskInstructions { workspace_id, content }
            ==> {
            &&& before.workspaces@[project].id == workspace_id ==> BlackholesApp::asked(
                before,
                after,
            ) == seq![Effect::WriteInstructions { workspace_id, content, shared: true }]
            &&& (forall|i: int|
                0 <= i < before.workspaces@.len() ==> (#[trigger] before.workspaces@[i]).id
                    != workspace_id) ==> after == before
        },
        command matches WorkspaceCommand::OpenProjectInstructions { workspace_id } ==> (
        before.workspaces@[project].id == workspace_id ==> BlackholesApp::asked(before, after)
            == seq![Effect::PrepareInstructions { workspace_id, shared: false }]),
        command matches WorkspaceCommand::OpenProjectTaskInstructions { workspace_id } ==> (
        before.workspaces@[project].id == workspace_id ==> BlackholesApp::asked(before, after)
            == seq![Effect::PrepareInstructions { workspace_id, shared: true }]),
{
    match command {
        WorkspaceCommand::SetProjectTerminalSkipPermissions { workspace_id, .. } => {
            lemma_known(before.workspaces@, workspace_id, project);
        },
        WorkspaceCommand::UpdateProjectInstructions { workspace_id, .. } => {
            lemma_known(before.workspaces@, workspace_id, project);
        },
        WorkspaceCommand::UpdateProjectTaskInstructions { workspace_id, .. } => {
            lemma_known(before.workspaces@, workspace_id, project);
        },
        WorkspaceCommand::OpenProjectInstructions { workspace_id } => {
            lemma_known(before.workspaces@, workspace_id, project);
        },
        WorkspaceCommand::OpenProjectTaskInstructions { workspace_id } => {
            lemma_known(before.workspaces@, workspace_id, project);
        },
        _ => {},
    }
    assert(BlackholesApp::asked(before, after) =~= after.effects@.subrange(
        before.effects@.len() as int,
        after.effects@.len() as int,
    ));
}

proof fn lemma_known(workspaces: Seq<Workspace>, workspace_id: Id, project: int)
    requires
        0 <= project < workspaces.len(),
    ensures
        workspaces[project].id == workspace_id ==> workspace_at(workspaces, workspace_id) is Some,
        (forall|i: int|
            0 <= i < workspaces.len() ==> (#[trigger] workspaces[i]).id != workspace_id)
            ==> workspace_at(workspaces, workspace_id) is None,
{
    let wanted = workspace_is(workspace_id);
    lemma_first_where(workspaces, wanted, 0);
    if workspaces[project].id == workspace_id {
        assert(wanted(workspaces[project]));
    }
}

/// A link is opened, as it is, where it leads to the web, to a mail or to a call,
/// and is left alone where it does not; a text is copied as it is.
pub proof fn law_links_and_texts(
    before: BlackholesApp,
    after: BlackholesApp,
    command: WorkspaceCommand,
    address: Seq<char>,
)
    requires
        BlackholesApp::obeys(before, after, command),
    ensures
        command matches WorkspaceCommand::OpenUrl { url } ==> {
            &&& url@ == "https://"@ + address || url@ == "http://"@ + address || url@ == "mailto:"@
                + address || url@ == "tel:"@ + address ==> BlackholesApp::asked(before, after)
                == seq![Effect::OpenUrl { url }]
            &&& url@ == "file://"@ + address || url@ == "javascript:"@ + address || url@ == "/"@
                + address ==> after == before
        },
        command matches WorkspaceCommand::CopyText { text } ==> {
            &&& text@.len() > 0 ==> BlackholesApp::asked(before, after) == seq![
                Effect::CopyText { text },
            ]
            &&& text@.len() == 0 ==> after == before
        },
{
    reveal_strlit("https://");
    reveal_strlit("http://");
    reveal_strlit("mailto:");
    reveal_strlit("tel:");
    reveal_strlit("file://");
    reveal_strlit("javascript:");
    reveal_strlit("/");
    if let WorkspaceCommand::OpenUrl { url } = command {
        if url@ == "https://"@ + address {
            assert("https://"@ =~= url@.subrange(0, 8));
        }
        if url@ == "http://"@ + address {
            assert("http://"@ =~= url@.subrange(0, 7));
        }
        if url@ == "mailto:"@ + address {
            assert("mailto:"@ =~= url@.subrange(0, 7));
        }
        if url@ == "tel:"@ + address {
            assert("tel:"@ =~= url@.subrange(0, 4));
        }
        if is_outside_link(url@) {
            let first = url@[0];
            assert(first == 'h' || first == 'm' || first == 't') by {
                if "https://"@.is_prefix_of(url@) {
                    assert(url@.subrange(0, 8)[0] == 'h');
                } else if "http://"@.is_prefix_of(url@) {
                    assert(url@.subrange(0, 7)[0] == 'h');
                } else if "mailto:"@.is_prefix_of(url@) {
                    assert(url@.subrange(0, 7)[0] == 'm');
                } else {
                    assert(url@.subrange(0, 4)[0] == 't');
                }
            }
        }
    }
    assert(BlackholesApp::asked(before, after) =~= after.effects@.subrange(
        before.effects@.len() as int,
        after.effects@.len() as int,
    ));
}

/// The change that is opened by its path is one of those that are known and has
/// that path, and one of them is found where there is one.
pub proof fn law_change_found(changes: RepositoryChangesState, path: Seq<char>, at: int)
    ensures
        change_at(changes, path) matches Some(change) ==> change.relative_path@ == path && (
        changes matches RepositoryChangesState::Ready(items) && items@.contains(change)),
        changes matches RepositoryChangesState::Ready(items) ==> (0 <= at < items@.len()
            && items@[at].relative_path@ == path ==> change_at(changes, path) is Some),
{
    if let RepositoryChangesState::Ready(items) = changes {
        let wanted = change_is(path);
        lemma_first_where(items@, wanted, 0);
        if 0 <= at < items@.len() && items@[at].relative_path@ == path {
            assert(wanted(items@[at]));
        }
    }
}

/// The code that a language is published under chooses that language when it
/// comes back, and the theme that is chosen is the one that is used.
pub proof fn law_language_read_back(
    before: BlackholesApp,
    after: BlackholesApp,
    command: WorkspaceCommand,
    language: Language,
)
    requires
        BlackholesApp::obeys(before, after, command),
    ensures
        (command matches WorkspaceCommand::SetLanguage { language: code } && code@
            == crate::labels::language_code(language)) ==> after.session.language == language,
        command matches WorkspaceCommand::SetTheme { theme } ==> after.session.theme == theme,
{
    reveal_strlit("en");
    reveal_strlit("es");
    assert("en"@[1] != "es"@[1]);
}

} // verus!
