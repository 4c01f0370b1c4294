//! Dialogs over the central surface: what opens them, what is sent from them and
//! what comes of it.
use vstd::prelude::*;
use vstd::string::*;

use crate::app::{BlackholesApp, Modals, RemovalPlan, RepositoryRemoval};
use crate::clock::{current_time, fresh_id, Time};
use crate::drafts::{copy_ids, BranchAvailability, BranchCheck, CreateTaskRequest};
use crate::effects::{
    Dialog, Effect, FoundRepository, ModalKind, RepositoryMode, RepositorySource,
};
use crate::ids::Id;
use crate::labels::NoteSaveState;
use crate::model::{
    copy_text, find_repository, find_task, find_task_repository, find_workspace, repository_at,
    task_at, task_repository_at, workspace_at, ProjectTask, Repository, Workspace, WorkspaceLayout,
};
use crate::paths::{components, contains_path, has_path, is_under, lies_under};
use crate::projects::StoreError;
use crate::search::retain_where;
use crate::text::{blank, is_blank, join3, join4, trim, trimmed};

verus! {

// ---------------------------------------------------------------------------
// Closing
// ---------------------------------------------------------------------------
impl Modals {
    /// No dialog waits for an answer.
    pub open spec fn are_closed(before: Self, after: Self) -> bool {
        &&& after.sources@ == Seq::<String>::empty()
        &&& after == (Modals {
            project_request: None,
            appearance_request: None,
            repository_workspace: None,
            repository_removal: None,
            task_request: None,
            task_removal: None,
            agent_removal: None,
            sources: after.sources,
            ..before
        })
    }

    /// What a dialog asked for is being done.
    pub open spec fn submitting(&self) -> bool {
        self.task_submitting || self.project_submitting
    }
}

impl BlackholesApp {
    /// `after` is `before` with every dialog closed; while one is being acted
    /// upon, nothing happens.
    pub open spec fn dismisses(before: Self, after: Self) -> bool {
        if before.modals.submitting() {
            after == before
        } else {
            &&& Modals::are_closed(before.modals, after.modals)
            &&& after.effects@ == before.effects@ + seq![
                Effect::CloseModal,
                Effect::ModalVisibility { visible: false },
                Effect::Redraw,
            ]
            &&& after == (BlackholesApp {
                modals: after.modals,
                effects: after.effects,
                ..before
            })
        }
    }

    /// Closes the dialogs.
    pub fn dismiss_app_modal(&mut self)
        ensures
            Self::dismisses(*old(self), *final(self)),
    {
        if self.modals.task_submitting || self.modals.project_submitting {
            return ;
        }
        self.modals.task_request = None;
        self.modals.task_removal = None;
        self.modals.agent_removal = None;
        self.modals.project_request = None;
        self.modals.appearance_request = None;
        self.modals.repository_workspace = None;
        self.modals.repository_removal = None;
        self.modals.sources = Vec::new();
        self.emit(Effect::CloseModal);
        self.emit(Effect::ModalVisibility { visible: false });
        self.notify();
        assert(self.effects@ =~= old(self).effects@ + seq![
            Effect::CloseModal,
            Effect::ModalVisibility { visible: false },
            Effect::Redraw,
        ]);
    }

    /// The requests that hand the keyboard to the terminal in front, where the
    /// terminals are shown.
    pub open spec fn refocuses(&self) -> Seq<Effect> {
        match self.terminal_selected() {
            Some(terminal_id) if self.surface.show_terminal => self.focuses(terminal_id),
            _ => seq![],
        }
    }

    pub(crate) fn refocus_terminal(&mut self)
        ensures
            Self::requests(*old(self), *final(self), old(self).refocuses()),
    {
        let selected = self.selected_terminal_id();
        if self.surface.show_terminal {
            if let Some(terminal_id) = selected {
                self.focus_terminal_input(terminal_id);
                return ;
            }
        }
        assert(self.effects@ =~= old(self).effects@ + Seq::<Effect>::empty());
    }

    /// `after` is `before` with an error shown in a dialog.
    pub open spec fn shows_modal_error(before: Self, after: Self, modal: Id, message: Seq<char>) -> bool {
        exists|text: String|
            text@ == message && #[trigger] Self::requests(
                before,
                after,
                seq![Effect::ModalError { modal, message: text }],
            )
    }

    /// Shows an error in the dialog of a request.
    pub fn repository_modal_error(&mut self, modal: Id, message: String)
        ensures
            Self::shows_modal_error(*old(self), *final(self), modal, message@),
            Self::requests(*old(self), *final(self), seq![Effect::ModalError { modal, message }]),
    {
        self.emit(Effect::ModalError { modal, message });
    }
}

// ---------------------------------------------------------------------------
// The appearance of a project
// ---------------------------------------------------------------------------
impl BlackholesApp {
    /// `after` is `before` with the dialog for the appearance of a project shown.
    pub open spec fn edits_project(before: Self, after: Self, workspace_id: Id, request_id: Id) -> bool {
        Self::shows_modal(
            BlackholesApp {
                modals: Modals {
                    appearance_request: Some((request_id, workspace_id)),
                    ..before.modals
                },
                ..before
            },
            after,
            ModalKind::EditProject { request_id, workspace_id },
        )
    }

    /// `after` is `before` with the user asked for the appearance of a project.
    pub open spec fn opens_edit_project(before: Self, after: Self, workspace_id: Id) -> bool {
        if workspace_at(before.workspaces@, workspace_id) is None {
            after == before
        } else if before.has_workspace_webview {
            exists|request_id: Id| #[trigger]
                Self::edits_project(before, after, workspace_id, request_id)
        } else {
            Self::requests(
                before,
                after,
                seq![Effect::OpenDialog { dialog: Dialog::EditProject { workspace_id } }],
            )
        }
    }

    /// The user wants to change how a project appears.
    pub fn open_edit_project(&mut self, workspace_id: Id)
        ensures
            Self::opens_edit_project(*old(self), *final(self), workspace_id),
    {
        let ghost before = *self;
        if find_workspace(&self.workspaces, workspace_id).is_none() {
            return ;
        }
        if self.has_workspace_webview {
            let request_id: Id = fresh_id();
            self.modals.appearance_request = Some((request_id, workspace_id));
            self.show_modal(ModalKind::EditProject { request_id, workspace_id });
            assert(Self::edits_project(before, *self, workspace_id, request_id));
        } else {
            self.emit(Effect::OpenDialog { dialog: Dialog::EditProject { workspace_id } });
        }
    }

    /// The message shown where the appearance could not be changed.
    pub open spec fn failure_text(&self) -> Seq<char> {
        match self.status {
            Some(status) => status.message@,
            None => self.text(
                "Could not update the project."@,
                "No se pudo actualizar el proyecto."@,
            ),
        }
    }

    /// `after` is `before` with the dialog closed where the change was made, and
    /// an error in it where it was not.
    pub open spec fn answers_edit(before: Self, after: Self, request_id: Id, done: bool) -> bool {
        if done {
            exists|closed: BlackholesApp| #[trigger]
                Self::dismisses(before, closed) && Self::requests(closed, after, closed.refocuses())
        } else {
            Self::shows_modal_error(before, after, request_id, before.failure_text())
        }
    }

    /// `after` is `before` with the appearance of a project changed from a dialog.
    pub open spec fn submits_edit(
        before: Self,
        after: Self,
        request_id: Id,
        workspace_id: Id,
        workspace: Workspace,
        outcome: Result<(), String>,
    ) -> bool {
        if before.modals.appearance_request != Some((request_id, workspace_id)) {
            after == before
        } else {
            exists|presented: BlackholesApp, done: bool| #[trigger]
                Self::presents_project(
                    before,
                    presented,
                    workspace_id,
                    workspace,
                    outcome,
                    done,
                ) && Self::answers_edit(presented, after, request_id, done)
        }
    }

    /// The user sent the dialog for the appearance of a project. `workspace` is
    /// the project as it would be, `outcome` what came of changing and storing it.
    pub fn submit_edit_project(
        &mut self,
        request_id: Id,
        workspace_id: Id,
        workspace: Workspace,
        outcome: Result<(), String>,
    )
        ensures
            Self::submits_edit(
                *old(self),
                *final(self),
                request_id,
                workspace_id,
                workspace,
                outcome,
            ),
    {
        let ghost before = *self;
        let ghost wanted = workspace;
        let ghost told = outcome;
        let awaited: bool = match self.modals.appearance_request {
            Some((request, project)) => request == request_id && project == workspace_id,
            None => false,
        };
        if !awaited {
            return ;
        }
        let done: bool = self.update_project_presentation(workspace_id, workspace, outcome);
        let ghost presented = *self;
        assert(Self::presents_project(before, presented, workspace_id, wanted, told, done));
        if done {
            self.dismiss_app_modal();
            let ghost closed = *self;
            assert(Self::dismisses(presented, closed));
            self.refocus_terminal();
        } else {
            let message = match &self.status {
                Some(status) => status.message.clone(),
                None => self.tr(
                    "Could not update the project.",
                    "No se pudo actualizar el proyecto.",
                ).to_string(),
            };
            self.repository_modal_error(request_id, message);
        }
        assert(Self::answers_edit(presented, *self, request_id, done));
    }
}

// ---------------------------------------------------------------------------
// Confirmations
// ---------------------------------------------------------------------------
impl BlackholesApp {
    /// `after` is `before` with the user asked whether a project is to go.
    pub open spec fn asks_to_remove_project(before: Self, after: Self, workspace_id: Id) -> bool {
        if workspace_at(before.workspaces@, workspace_id) is None {
            after == before
        } else if before.surface.show_terminal {
            Self::requests(
                before,
                after,
                seq![Effect::OpenDialog { dialog: Dialog::RemoveProject { workspace_id } }],
            )
        } else {
            Self::requests(
                before,
                after,
                seq![
                    Effect::ShowModal { kind: ModalKind::RemoveProject { workspace_id } },
                    Effect::ModalVisibility { visible: true },
                ],
            )
        }
    }

    /// The user wants to remove a project from the application.
    pub fn open_remove_project_confirmation(&mut self, workspace_id: Id)
        ensures
            Self::asks_to_remove_project(*old(self), *final(self), workspace_id),
    {
        if find_workspace(&self.workspaces, workspace_id).is_none() {
            return ;
        }
        if self.surface.show_terminal {
            self.emit(Effect::OpenDialog { dialog: Dialog::RemoveProject { workspace_id } });
        } else {
            self.emit(Effect::ShowModal { kind: ModalKind::RemoveProject { workspace_id } });
            self.emit(Effect::ModalVisibility { visible: true });
            assert(self.effects@ =~= old(self).effects@ + seq![
                Effect::ShowModal { kind: ModalKind::RemoveProject { workspace_id } },
                Effect::ModalVisibility { visible: true },
            ]);
        }
    }

    /// `after` is `before` with the user asked whether a task is to go.
    pub open spec fn asks_to_remove_task(before: Self, after: Self, task_id: Id) -> bool {
        if task_at(before.tasks@, task_id) is None {
            after == before
        } else if before.has_workspace_webview {
            Self::shows_modal(
                BlackholesApp {
                    modals: Modals { task_removal: Some(task_id), ..before.modals },
                    ..before
                },
                after,
                ModalKind::RemoveTask { task_id },
            )
        } else {
            Self::requests(
                before,
                after,
                seq![Effect::OpenDialog { dialog: Dialog::RemoveTask { task_id } }],
            )
        }
    }

    /// The user wants to remove a task.
    pub fn open_remove_task_confirmation(&mut self, task_id: Id)
        ensures
            Self::asks_to_remove_task(*old(self), *final(self), task_id),
    {
        if find_task(&self.tasks, task_id).is_none() {
            return ;
        }
        if self.has_workspace_webview {
            self.modals.task_removal = Some(task_id);
            self.show_modal(ModalKind::RemoveTask { task_id });
        } else {
            self.emit(Effect::OpenDialog { dialog: Dialog::RemoveTask { task_id } });
        }
    }

    /// `after` is `before` with the selection managed: the details of the selected
    /// task shown, or the dialog for the selected project.
    pub open spec fn manages(before: Self, after: Self) -> bool {
        match before.task_selected() {
            Some(at) => Self::shows_task(
                before,
                after,
                before.tasks@[at].workspace_id,
                before.tasks@[at].id,
            ),
            None => match before.workspace_selected() {
                Some(at) => Self::requests(
                    before,
                    after,
                    seq![
                        Effect::OpenDialog {
                            dialog: Dialog::ManageProject {
                                workspace_id: before.workspaces@[at].id,
                            },
                        },
                    ],
                ),
                None => after == before,
            },
        }
    }

    /// The user wants to manage what is selected.
    pub fn open_manage_selected(&mut self)
        ensures
            Self::manages(*old(self), *final(self)),
    {
        match self.selected_task() {
            Some(at) => {
                let workspace_id: Id = self.tasks[at].workspace_id;
                let task_id: Id = self.tasks[at].id;
                self.show_task_details_for(workspace_id, task_id);
            },
            None => match self.selected_workspace() {
                Some(at) => {
                    let workspace_id: Id = self.workspaces[at].id;
                    self.emit(
                        Effect::OpenDialog { dialog: Dialog::ManageProject { workspace_id } },
                    );
                },
                None => {},
            },
        }
    }
}

// ---------------------------------------------------------------------------
// A new task
// ---------------------------------------------------------------------------
/// Every identifier is that of a repository of the list.
pub open spec fn all_known(repository_ids: Seq<Id>, repositories: Seq<Repository>) -> bool {
    forall|i: int|
        0 <= i < repository_ids.len() ==> repository_at(
            repositories,
            #[trigger] repository_ids[i],
        ) is Some
}

fn are_all_known(repository_ids: &Vec<Id>, repositories: &Vec<Repository>) -> (result: bool)
    ensures
        result == all_known(repository_ids@, repositories@),
{
    let mut index: usize = 0;
    while index < repository_ids.len()
        invariant
            index <= repository_ids@.len(),
            forall|i: int|
                0 <= i < index ==> repository_at(
                    repositories@,
                    #[trigger] repository_ids@[i],
                ) is Some,
        decreases repository_ids@.len() - index,
    {
        if find_repository(repositories, repository_ids[index]).is_none() {
            assert(repository_at(repositories@, repository_ids@[index as int]) is None);
            return false;
        }
        index += 1;
    }
    true
}

/// The name of the branch that a request asks for.
pub open spec fn branch_of(request: CreateTaskRequest) -> Seq<char> {
    match request.branch_name {
        Some(name) => name@,
        None => ""@,
    }
}

/// What came of acting upon the dialog for a new task: the task, or what the
/// check of its branch found.
#[derive(Debug)]
pub enum TaskModalOutcome {
    Created(ProjectTask),
    Checked(Vec<BranchAvailability>),
}

impl BlackholesApp {
    /// Why the dialog for a new task cannot be acted upon, if so.
    pub open spec fn task_refusal(
        &self,
        repositories: Seq<Repository>,
        request: CreateTaskRequest,
        check_only: bool,
    ) -> Option<Seq<char>> {
        if request.repository_ids@.len() == 0 || !all_known(request.repository_ids@, repositories) {
            Some(
                self.text(
                    "Select at least one repository from this project."@,
                    "Selecciona al menos un repositorio de este proyecto."@,
                ),
            )
        } else if check_only && is_blank(branch_of(request)) {
            Some(
                self.text(
                    "Enter a branch name to check."@,
                    "Escribe una rama para comprobarla."@,
                ),
            )
        } else if !check_only && is_blank(request.title@) {
            Some(self.text("Enter a task title."@, "Escribe un título para la tarea."@))
        } else {
            None
        }
    }

    fn refuse_task(
        &self,
        repositories: &Vec<Repository>,
        request: &CreateTaskRequest,
        check_only: bool,
    ) -> (result: Option<&'static str>)
        ensures
            match result {
                Some(message) => self.task_refusal(repositories@, *request, check_only) == Some(
                    message@,
                ),
                None => self.task_refusal(repositories@, *request, check_only) is None,
            },
    {
        if request.repository_ids.len() == 0 || !are_all_known(
            &request.repository_ids,
            repositories,
        ) {
            return Some(
                self.tr(
                    "Select at least one repository from this project.",
                    "Selecciona al menos un repositorio de este proyecto.",
                ),
            );
        }
        if check_only {
            let empty: bool = match &request.branch_name {
                Some(name) => blank(name.as_str()),
                None => blank(""),
            };
            if empty {
                return Some(
                    self.tr("Enter a branch name to check.", "Escribe una rama para comprobarla."),
                );
            }
        } else if blank(request.title.as_str()) {
            return Some(self.tr("Enter a task title.", "Escribe un título para la tarea."));
        }
        None
    }

    /// The state with a task being acted upon.
    pub open spec fn task_submitted(self) -> Self {
        BlackholesApp { modals: Modals { task_submitting: true, ..self.modals }, ..self }
    }

    /// The state with no task being acted upon.
    pub open spec fn task_settled(self) -> Self {
        BlackholesApp { modals: Modals { task_submitting: false, ..self.modals }, ..self }
    }

    /// The check that a request asks for.
    pub open spec fn is_check(check: BranchCheck, request: CreateTaskRequest) -> bool {
        &&& check.repository_ids@ == request.repository_ids@
        &&& check.branch_name@ == branch_of(request)
        &&& check.branch_source == request.branch_source
        &&& check.base_ref == request.base_ref
    }

    /// `after` is `before` with the check of a branch begun.
    pub open spec fn begins_check(
        before: Self,
        after: Self,
        request_id: Id,
        workspace_id: Id,
        request: CreateTaskRequest,
    ) -> bool {
        exists|check: BranchCheck|
            #[trigger] Self::is_check(check, request) && Self::requests(
                before.task_submitted(),
                after,
                seq![
                    Effect::CheckBranches { modal: request_id, workspace_id, check },
                    Effect::Redraw,
                ],
            )
    }

    /// `after` is `before` with the dialog for a new task acted upon.
    pub open spec fn submits_task(
        before: Self,
        after: Self,
        request_id: Id,
        workspace_id: Id,
        request: CreateTaskRequest,
        check_only: bool,
    ) -> bool {
        if before.modals.task_request != Some((request_id, workspace_id))
            || before.modals.task_submitting {
            after == before
        } else {
            match workspace_at(before.workspaces@, workspace_id) {
                None => Self::dismisses(before, after),
                Some(at) => match before.task_refusal(
                    before.workspaces@[at].repositories@,
                    request,
                    check_only,
                ) {
                    Some(message) => Self::shows_modal_error(before, after, request_id, message),
                    None => if check_only {
                        Self::begins_check(before, after, request_id, workspace_id, request)
                    } else {
                        Self::requests(
                            before.task_submitted(),
                            after,
                            seq![
                                Effect::CreateModalTask {
                                    modal: request_id,
                                    workspace_id,
                                    creation: request,
                                },
                                Effect::Redraw,
                            ],
                        )
                    },
                },
            }
        }
    }

    /// The dialog that waits is the one of the request.
    pub(crate) fn awaits_task(&self, request_id: Id, workspace_id: Id) -> (result: bool)
        ensures
            result == (self.modals.task_request == Some((request_id, workspace_id))),
    {
        match self.modals.task_request {
            Some((request, project)) => request == request_id && project == workspace_id,
            None => false,
        }
    }

    /// The user sent the dialog for a new task, or asks it to check a branch.
    pub fn handle_create_task_modal(
        &mut self,
        request_id: Id,
        workspace_id: Id,
        request: CreateTaskRequest,
        check_only: bool,
    )
        ensures
            Self::submits_task(
                *old(self),
                *final(self),
                request_id,
                workspace_id,
                request,
                check_only,
            ),
    {
        let ghost before = *self;
        if !self.awaits_task(request_id, workspace_id) || self.modals.task_submitting {
            return ;
        }
        let at: usize = match find_workspace(&self.workspaces, workspace_id) {
            Some(at) => at,
            None => {
                self.dismiss_app_modal();
                return ;
            },
        };
        if let Some(message) = self.refuse_task(
            &self.workspaces[at].repositories,
            &request,
            check_only,
        ) {
            self.repository_modal_error(request_id, message.to_string());
            return ;
        }
        self.modals.task_submitting = true;
        assert(*self == before.task_submitted());
        if check_only {
            let branch_name: String = match &request.branch_name {
                Some(name) => name.clone(),
                None => "".to_string(),
            };
            let check = BranchCheck {
                repository_ids: copy_ids(&request.repository_ids),
                branch_name,
                branch_source: request.branch_source,
                base_ref: copy_text(&request.base_ref),
            };
            let ghost wanted = check;
            assert(Self::is_check(wanted, request));
            self.emit(Effect::CheckBranches { modal: request_id, workspace_id, check });
            self.notify();
            assert(self.effects@ =~= before.effects@ + seq![
                Effect::CheckBranches { modal: request_id, workspace_id, check: wanted },
                Effect::Redraw,
            ]);
            assert(Self::requests(
                before.task_submitted(),
                *self,
                seq![
                    Effect::CheckBranches { modal: request_id, workspace_id, check: wanted },
                    Effect::Redraw,
                ],
            ));
        } else {
            let ghost wanted = request;
            self.emit(
                Effect::CreateModalTask { modal: request_id, workspace_id, creation: request },
            );
            self.notify();
            assert(self.effects@ =~= before.effects@ + seq![
                Effect::CreateModalTask { modal: request_id, workspace_id, creation: wanted },
                Effect::Redraw,
            ]);
        }
    }

    /// `after` is `before` with the dialog closed and the new task added.
    pub open spec fn answers_created(
        before: Self,
        after: Self,
        task: ProjectTask,
        stored: Result<(), String>,
    ) -> bool {
        exists|closed: BlackholesApp| #[trigger]
            Self::dismisses(before, closed) && Self::finishes_task(closed, after, Ok(task), stored)
    }

    /// `after` is `before` with the dialog for a new task answered.
    pub open spec fn answers_task(
        before: Self,
        after: Self,
        request_id: Id,
        result: Result<TaskModalOutcome, String>,
        stored: Result<(), String>,
    ) -> bool {
        match result {
            Err(error) => Self::shows_modal_error(before, after, request_id, error@),
            Ok(TaskModalOutcome::Checked(branches)) => Self::requests(
                before,
                after,
                seq![Effect::ModalBranches { modal: request_id, branches }],
            ),
            Ok(TaskModalOutcome::Created(task)) => Self::answers_created(
                before,
                after,
                task,
                stored,
            ),
        }
    }

    /// `after` is `before` with the outcome of acting upon the dialog.
    pub open spec fn finishes_task_modal(
        before: Self,
        after: Self,
        request_id: Id,
        workspace_id: Id,
        result: Result<TaskModalOutcome, String>,
        stored: Result<(), String>,
    ) -> bool {
        if before.modals.task_request != Some((request_id, workspace_id)) {
            after == before.task_settled()
        } else {
            exists|answered: BlackholesApp| #[trigger]
                Self::answers_task(
                    before.task_settled(),
                    answered,
                    request_id,
                    result,
                    stored,
                ) && Self::requests(answered, after, seq![Effect::Redraw])
        }
    }

    /// The task of a dialog was made, or its branch checked. `stored` is what came
    /// of writing the record of the task.
    pub fn finish_create_task_modal(
        &mut self,
        request_id: Id,
        workspace_id: Id,
        result: Result<TaskModalOutcome, String>,
        stored: Result<(), String>,
    )
        ensures
            Self::finishes_task_modal(
                *old(self),
                *final(self),
                request_id,
                workspace_id,
                result,
                stored,
            ),
    {
        let ghost before = *self;
        let ghost (came, kept) = (result, stored);
        self.modals.task_submitting = false;
        let ghost settled = *self;
        assert(settled == before.task_settled());
        if !self.awaits_task(request_id, workspace_id) {
            return ;
        }
        match result {
            Err(error) => self.repository_modal_error(request_id, error),
            Ok(TaskModalOutcome::Checked(branches)) => self.emit(
                Effect::ModalBranches { modal: request_id, branches },
            ),
            Ok(TaskModalOutcome::Created(task)) => {
                self.dismiss_app_modal();
                assert(Self::dismisses(settled, *self));
                self.finish_background_task(Ok(task), stored);
            },
        }
        assert(Self::answers_task(settled, *self, request_id, came, kept));
        self.notify();
    }
}

// ---------------------------------------------------------------------------
// Folders and sources
// ---------------------------------------------------------------------------
/// The source is one that the dialog offered, or not on this machine.
pub open spec fn is_offered(source: RepositorySource, offered: Seq<String>) -> bool {
    match source {
        RepositorySource::Local { path } => has_path(offered, components(path@)),
        RepositorySource::Github { .. } => true,
    }
}

pub open spec fn all_offered(sources: Seq<RepositorySource>, offered: Seq<String>) -> bool {
    forall|i: int| 0 <= i < sources.len() ==> is_offered(#[trigger] sources[i], offered)
}

fn are_all_offered(sources: &Vec<RepositorySource>, offered: &Vec<String>) -> (result: bool)
    ensures
        result == all_offered(sources@, offered@),
{
    let mut index: usize = 0;
    while index < sources.len()
        invariant
            index <= sources@.len(),
            forall|i: int| 0 <= i < index ==> is_offered(#[trigger] sources@[i], offered@),
        decreases sources@.len() - index,
    {
        let fits: bool = match &sources[index] {
            RepositorySource::Local { path } => contains_path(offered, path.as_str()),
            RepositorySource::Github { .. } => true,
        };
        if !fits {
            assert(!is_offered(sources@[index as int], offered@));
            return false;
        }
        index += 1;
    }
    true
}

/// The path is among those that are offered.
pub open spec fn offers(offered: Seq<Seq<char>>, path: Seq<char>) -> bool {
    exists|i: int| 0 <= i < offered.len() && components(#[trigger] offered[i]) == components(path)
}

/// The sources that are offered once more were found.
pub open spec fn offered_with(offered: Seq<Seq<char>>, found: Seq<FoundRepository>) -> Seq<Seq<char>>
    decreases found.len(),
{
    if found.len() == 0 {
        offered
    } else {
        let earlier = offered_with(offered, found.drop_last());
        if offers(earlier, found.last().path@) {
            earlier
        } else {
            earlier.push(found.last().path@)
        }
    }
}

fn offer_more(offered: &mut Vec<String>, found: &Vec<FoundRepository>)
    ensures
        crate::text::views(final(offered)@) == offered_with(
            crate::text::views(old(offered)@),
            found@,
        ),
{
    let ghost before = crate::text::views(offered@);
    let mut index: usize = 0;
    assert(found@.take(0) =~= Seq::<FoundRepository>::empty());
    while index < found.len()
        invariant
            index <= found@.len(),
            crate::text::views(offered@) == offered_with(before, found@.take(index as int)),
        decreases found@.len() - index,
    {
        let ghost current = offered@;
        proof {
            let next = found@.take(index + 1);
            assert(next.drop_last() =~= found@.take(index as int));
            assert(next.last() == found@[index as int]);
            let path = found@[index as int].path@;
            let texts = crate::text::views(current);
            let place = components(path);
            assert(has_path(current, place) == offers(texts, path)) by {
                if has_path(current, place) {
                    let i = choose|i: int|
                        0 <= i < current.len() && components((#[trigger] current[i])@) == place;
                    assert(components(texts[i]) == place);
                }
                if offers(texts, path) {
                    let i = choose|i: int|
                        0 <= i < texts.len() && components(#[trigger] texts[i]) == place;
                    assert(components(current[i]@) == place);
                }
            }
        }
        if !contains_path(offered, found[index].path.as_str()) {
            offered.push(found[index].path.clone());
            assert(crate::text::views(offered@) =~= crate::text::views(current).push(
                found@[index as int].path@,
            ));
        }
        index += 1;
    }
    assert(found@.take(index as int) =~= found@);
}

impl BlackholesApp {
    /// The dialog takes repositories from a folder.
    pub open spec fn takes_folder(&self, request_id: Id) -> bool {
        self.modals.project_request == Some(request_id) && !self.modals.project_submitting
            && self.modals.repository_removal is None
    }

    /// The user wants to choose a folder for a dialog.
    pub fn choose_project_modal_folder(&mut self, request_id: Id)
        ensures
            if old(self).takes_folder(request_id) {
                Self::requests(
                    *old(self),
                    *final(self),
                    seq![Effect::ChooseProjectFolder { modal: request_id }],
                )
            } else {
                *final(self) == *old(self)
            },
    {
        if self.modals.project_request != Some(request_id) || self.modals.project_submitting
            || self.modals.repository_removal.is_some() {
            return ;
        }
        self.emit(Effect::ChooseProjectFolder { modal: request_id });
    }

    /// `after` is `before` with a folder chosen for a dialog, or none.
    pub open spec fn folder_chosen(
        before: Self,
        after: Self,
        request_id: Id,
        path: Option<String>,
    ) -> bool {
        match path {
            Some(path) => Self::requests(
                BlackholesApp {
                    modals: Modals { project_submitting: true, ..before.modals },
                    ..before
                },
                after,
                seq![Effect::ScanProjectFolder { modal: request_id, path }],
            ),
            None => Self::requests(
                before,
                after,
                seq![Effect::ModalUnchanged { modal: request_id }],
            ),
        }
    }

    /// A folder was chosen for a dialog, or none.
    pub fn project_folder_chosen(&mut self, request_id: Id, path: Option<String>)
        ensures
            Self::folder_chosen(*old(self), *final(self), request_id, path),
    {
        match path {
            Some(path) => {
                self.modals.project_submitting = true;
                self.emit(Effect::ScanProjectFolder { modal: request_id, path });
            },
            None => self.emit(Effect::ModalUnchanged { modal: request_id }),
        }
    }

    /// The state with no project being acted upon.
    pub open spec fn project_settled(self) -> Self {
        BlackholesApp { modals: Modals { project_submitting: false, ..self.modals }, ..self }
    }

    /// The state with no project being acted upon, and nothing told.
    pub open spec fn project_unreported(self) -> Self {
        BlackholesApp { status: None, ..self.project_settled() }
    }

    /// `after` is `before` with the repositories of a folder offered.
    pub open spec fn offers(before: Self, after: Self, modal: Id, found: Vec<FoundRepository>) -> bool {
        &&& crate::text::views(after.modals.sources@) == offered_with(
            crate::text::views(before.modals.sources@),
            found@,
        )
        &&& after.effects@ == before.effects@ + seq![
            Effect::ModalRepositories { modal, found },
            Effect::Redraw,
        ]
        &&& after == (BlackholesApp {
            modals: Modals { sources: after.modals.sources, ..before.modals },
            effects: after.effects,
            ..before
        })
    }

    /// `after` is `before` with an error shown in a dialog, and drawn again.
    pub open spec fn draws_modal_error(before: Self, after: Self, modal: Id, message: Seq<char>) -> bool {
        exists|shown: BlackholesApp| #[trigger]
            Self::shows_modal_error(before, shown, modal, message) && Self::requests(
                shown,
                after,
                seq![Effect::Redraw],
            )
    }

    /// `after` is `before` with what was found in a folder taken in.
    pub open spec fn finishes_scan(
        before: Self,
        after: Self,
        request_id: Id,
        result: Result<Vec<FoundRepository>, String>,
    ) -> bool {
        let settled = before.project_settled();
        if before.modals.project_request != Some(request_id) {
            after == settled
        } else {
            match result {
                Err(error) => Self::draws_modal_error(settled, after, request_id, error@),
                Ok(found) => if found@.len() == 0 {
                    Self::draws_modal_error(
                        settled,
                        after,
                        request_id,
                        before.text(
                            "No Git repositories found in this folder or its immediate subfolders."@,
                            "No se encontraron repositorios Git en esta carpeta ni en sus subcarpetas inmediatas."@,
                        ),
                    )
                } else {
                    Self::offers(settled, after, request_id, found)
                },
            }
        }
    }

    /// The folder that was chosen for a dialog was looked through.
    pub fn finish_project_folder(
        &mut self,
        request_id: Id,
        result: Result<Vec<FoundRepository>, String>,
    )
        ensures
            Self::finishes_scan(*old(self), *final(self), request_id, result),
    {
        let ghost before = *self;
        self.modals.project_submitting = false;
        assert(*self == before.project_settled());
        if self.modals.project_request != Some(request_id) {
            return ;
        }
        match result {
            Err(error) => {
                self.repository_modal_error(request_id, error);
                self.notify();
            },
            Ok(found) => {
                if found.len() == 0 {
                    let message = self.tr(
                        "No Git repositories found in this folder or its immediate subfolders.",
                        "No se encontraron repositorios Git en esta carpeta ni en sus subcarpetas inmediatas.",
                    ).to_string();
                    self.repository_modal_error(request_id, message);
                    self.notify();
                } else {
                    let ghost wanted = found;
                    offer_more(&mut self.modals.sources, &found);
                    self.emit(Effect::ModalRepositories { modal: request_id, found });
                    self.notify();
                    assert(self.effects@ =~= before.effects@ + seq![
                        Effect::ModalRepositories { modal: request_id, found: wanted },
                        Effect::Redraw,
                    ]);
                }
            },
        }
    }
}

// ---------------------------------------------------------------------------
// A new project
// ---------------------------------------------------------------------------
impl BlackholesApp {
    /// `after` is `before` with a dialog for a project waiting for an answer.
    pub open spec fn awaits_project(
        before: Self,
        after: Self,
        request_id: Id,
        workspace: Option<Id>,
    ) -> bool {
        &&& after.modals.sources@ == Seq::<String>::empty()
        &&& after == (BlackholesApp {
            modals: Modals {
                project_request: Some(request_id),
                repository_workspace: workspace,
                repository_removal: None,
                sources: after.modals.sources,
                ..before.modals
            },
            ..before
        })
    }

    fn await_project(&mut self, request_id: Id, workspace: Option<Id>)
        ensures
            Self::awaits_project(*old(self), *final(self), request_id, workspace),
    {
        self.modals.project_request = Some(request_id);
        self.modals.repository_workspace = workspace;
        self.modals.repository_removal = None;
        self.modals.sources = Vec::new();
    }

    /// `after` is `before` with the dialog for a new project shown.
    pub open spec fn asks_for_project(before: Self, after: Self, request_id: Id) -> bool {
        exists|waiting: BlackholesApp| #[trigger]
            Self::awaits_project(before, waiting, request_id, None) && Self::shows_modal(
                waiting,
                after,
                ModalKind::CreateProject { request_id },
            )
    }

    /// `after` is `before` with the user asked for a new project.
    pub open spec fn opens_create_project(before: Self, after: Self) -> bool {
        if before.modals.submitting() {
            after == before
        } else if before.has_workspace_webview {
            exists|request_id: Id| #[trigger] Self::asks_for_project(before, after, request_id)
        } else {
            Self::reports(
                before,
                after,
                before.text(
                    "The project form is unavailable. Restart Blackholes and try again."@,
                    "El formulario no está disponible. Reinicia Blackholes e inténtalo de nuevo."@,
                ),
                true,
            )
        }
    }

    /// The user wants a new project.
    pub fn open_create_project(&mut self)
        ensures
            Self::opens_create_project(*old(self), *final(self)),
    {
        let ghost before = *self;
        if self.modals.project_submitting || self.modals.task_submitting {
            return ;
        }
        if self.has_workspace_webview {
            let request_id: Id = fresh_id();
            self.await_project(request_id, None);
            assert(Self::awaits_project(before, *self, request_id, None));
            self.show_modal(ModalKind::CreateProject { request_id });
            assert(Self::asks_for_project(before, *self, request_id));
        } else {
            let message = self.tr(
                "The project form is unavailable. Restart Blackholes and try again.",
                "El formulario no está disponible. Reinicia Blackholes e inténtalo de nuevo.",
            ).to_string();
            self.set_status(message, true);
        }
    }

    /// The dialog for a new project waits for an answer.
    pub open spec fn takes_project(&self, request_id: Id) -> bool {
        self.modals.project_request == Some(request_id) && !self.modals.project_submitting
            && self.modals.repository_workspace is None && self.modals.repository_removal is None
    }

    /// `after` is `before` with a new project begun.
    pub open spec fn begins_project(
        before: Self,
        after: Self,
        request_id: Id,
        name: Seq<char>,
        sources: Vec<RepositorySource>,
        mode: RepositoryMode,
    ) -> bool {
        exists|text: String|
            text@ == name && #[trigger] Self::requests(
                BlackholesApp {
                    modals: Modals { project_submitting: true, ..before.modals },
                    ..before
                },
                after,
                seq![Effect::CreateProject { modal: request_id, name: text, sources, mode }],
            )
    }

    /// `after` is `before` with the dialog for a new project acted upon.
    pub open spec fn submits_project(
        before: Self,
        after: Self,
        request_id: Id,
        name: Seq<char>,
        sources: Vec<RepositorySource>,
        mode: RepositoryMode,
    ) -> bool {
        if !before.takes_project(request_id) {
            after == before
        } else if is_blank(name) {
            Self::shows_modal_error(
                before,
                after,
                request_id,
                before.text("Enter a project name."@, "Escribe un nombre para el proyecto."@),
            )
        } else if !all_offered(sources@, before.modals.sources@) {
            Self::shows_modal_error(
                before,
                after,
                request_id,
                before.text(
                    "Choose local repositories using the folder picker."@,
                    "Selecciona los repositorios locales con el selector de carpetas."@,
                ),
            )
        } else {
            Self::begins_project(before, after, request_id, trimmed(name), sources, mode)
        }
    }

    /// The user sent the dialog for a new project.
    pub fn submit_create_project_modal(
        &mut self,
        request_id: Id,
        name: String,
        sources: Vec<RepositorySource>,
        mode: RepositoryMode,
    )
        ensures
            Self::submits_project(*old(self), *final(self), request_id, name@, sources, mode),
    {
        let ghost before = *self;
        let ghost wanted = sources;
        if self.modals.project_request != Some(request_id) || self.modals.project_submitting
            || self.modals.repository_workspace.is_some()
            || self.modals.repository_removal.is_some() {
            return ;
        }
        if blank(name.as_str()) {
            let message = self.tr(
                "Enter a project name.",
                "Escribe un nombre para el proyecto.",
            ).to_string();
            self.repository_modal_error(request_id, message);
            return ;
        }
        if !are_all_offered(&sources, &self.modals.sources) {
            let message = self.tr(
                "Choose local repositories using the folder picker.",
                "Selecciona los repositorios locales con el selector de carpetas.",
            ).to_string();
            self.repository_modal_error(request_id, message);
            return ;
        }
        self.modals.project_submitting = true;
        let name = trim(name.as_str());
        let ghost text = name;
        self.emit(Effect::CreateProject { modal: request_id, name, sources, mode });
        assert(Self::requests(
            BlackholesApp {
                modals: Modals { project_submitting: true, ..before.modals },
                ..before
            },
            *self,
            seq![Effect::CreateProject { modal: request_id, name: text, sources: wanted, mode }],
        ));
    }

    /// `after` is `before` with the dialog of a project answered: its error where
    /// one was told, else it is closed.
    pub open spec fn answers_project(before: Self, after: Self, request_id: Id) -> bool {
        if before.modals.project_request != Some(request_id) {
            after == before
        } else {
            match before.status {
                Some(status) if status.error => Self::shows_modal_error(
                    before,
                    after,
                    request_id,
                    status.message@,
                ),
                _ => Self::dismisses(before, after),
            }
        }
    }

    /// `after` is `before` once the project of a dialog was made, or could not be.
    /// `stored` is what came of writing its note and its record, where it is new.
    pub open spec fn finishes_project(
        before: Self,
        after: Self,
        request_id: Id,
        result: Result<Workspace, String>,
        stored: Result<(), StoreError>,
    ) -> bool {
        exists|made: BlackholesApp| #[trigger]
            Self::finishes_workspace(before.project_unreported(), made, result, stored)
                && Self::answers_project(made, after, request_id)
    }

    /// The project of a dialog was made, or could not be.
    pub fn finish_create_project(
        &mut self,
        request_id: Id,
        result: Result<Workspace, String>,
        stored: Result<(), StoreError>,
    )
        ensures
            Self::finishes_project(*old(self), *final(self), request_id, result, stored),
    {
        let ghost before = *self;
        let ghost (came, kept) = (result, stored);
        self.modals.project_submitting = false;
        self.status = None;
        assert(*self == before.project_unreported());
        self.finish_background_workspace(result, stored);
        assert(Self::finishes_workspace(
            before.project_unreported(),
            *self,
            came,
            kept,
        ));
        if self.modals.project_request != Some(request_id) {
            return ;
        }
        let mut failure: Option<String> = None;
        if let Some(status) = &self.status {
            if status.error {
                failure = Some(status.message.clone());
            }
        }
        match failure {
            Some(message) => self.repository_modal_error(request_id, message),
            None => self.dismiss_app_modal(),
        }
    }
}

// ---------------------------------------------------------------------------
// More repositories for a project
// ---------------------------------------------------------------------------
impl BlackholesApp {
    /// `after` is `before` with the dialog for more repositories shown.
    pub open spec fn asks_for_repositories(before: Self, after: Self, workspace_id: Id, request_id: Id) -> bool {
        exists|waiting: BlackholesApp| #[trigger]
            Self::awaits_project(before, waiting, request_id, Some(workspace_id))
                && Self::shows_modal(
                waiting,
                after,
                ModalKind::AddRepository { request_id, workspace_id },
            )
    }

    /// `after` is `before` with the user asked for more repositories.
    pub open spec fn opens_additions(before: Self, after: Self, workspace_id: Id) -> bool {
        if before.is_occupied() || workspace_at(before.workspaces@, workspace_id) is None
            || !before.has_workspace_webview {
            after == before
        } else {
            exists|request_id: Id| #[trigger]
                Self::asks_for_repositories(before, after, workspace_id, request_id)
        }
    }

    /// The user wants to add repositories to a project.
    pub fn open_add_project_repository(&mut self, workspace_id: Id)
        ensures
            Self::opens_additions(*old(self), *final(self), workspace_id),
    {
        let ghost before = *self;
        if self.busy.is_some() || self.modals.project_submitting || self.modals.task_submitting {
            return ;
        }
        if find_workspace(&self.workspaces, workspace_id).is_none() {
            return ;
        }
        if !self.has_workspace_webview {
            return ;
        }
        let request_id: Id = fresh_id();
        self.await_project(request_id, Some(workspace_id));
        assert(Self::awaits_project(before, *self, request_id, Some(workspace_id)));
        self.show_modal(ModalKind::AddRepository { request_id, workspace_id });
        assert(Self::asks_for_repositories(before, *self, workspace_id, request_id));
    }

    /// The dialog for more repositories waits for an answer.
    pub open spec fn takes_repositories_for(&self, request_id: Id, workspace_id: Id) -> bool {
        self.modals.project_request == Some(request_id) && self.modals.repository_workspace
            == Some(workspace_id) && !self.modals.project_submitting && self.busy is None
    }

    /// `after` is `before` with more repositories for a project begun.
    pub open spec fn begins_additions(
        before: Self,
        after: Self,
        request_id: Id,
        workspace_id: Id,
        sources: Vec<RepositorySource>,
        mode: RepositoryMode,
    ) -> bool {
        &&& after.busy matches Some(text) && text@ == before.text(
            "Adding repositories…"@,
            "Agregando repositorios…"@,
        )
        &&& after.effects@ == before.effects@ + seq![
            Effect::AddRepositories { modal: request_id, workspace_id, sources, mode },
            Effect::Redraw,
        ]
        &&& after == (BlackholesApp {
            modals: Modals { project_submitting: true, ..before.modals },
            busy: after.busy,
            effects: after.effects,
            ..before
        })
    }

    /// `after` is `before` with the dialog for more repositories acted upon.
    pub open spec fn submits_additions(
        before: Self,
        after: Self,
        request_id: Id,
        workspace_id: Id,
        sources: Vec<RepositorySource>,
        mode: RepositoryMode,
    ) -> bool {
        if !before.takes_repositories_for(request_id, workspace_id) {
            after == before
        } else if sources@.len() == 0 || !all_offered(sources@, before.modals.sources@) {
            Self::shows_modal_error(
                before,
                after,
                request_id,
                before.text(
                    "Choose repositories using the form."@,
                    "Selecciona repositorios usando el formulario."@,
                ),
            )
        } else if workspace_at(before.workspaces@, workspace_id) is None {
            after == before
        } else {
            Self::begins_additions(before, after, request_id, workspace_id, sources, mode)
        }
    }

    /// The user sent the dialog for more repositories.
    pub fn submit_add_repositories(
        &mut self,
        request_id: Id,
        workspace_id: Id,
        sources: Vec<RepositorySource>,
        mode: RepositoryMode,
    )
        ensures
            Self::submits_additions(
                *old(self),
                *final(self),
                request_id,
                workspace_id,
                sources,
                mode,
            ),
    {
        let ghost before = *self;
        let ghost wanted = sources;
        if self.modals.project_request != Some(request_id) || self.modals.repository_workspace
            != Some(workspace_id) || self.modals.project_submitting || self.busy.is_some() {
            return ;
        }
        if sources.len() == 0 || !are_all_offered(&sources, &self.modals.sources) {
            let message = self.tr(
                "Choose repositories using the form.",
                "Selecciona repositorios usando el formulario.",
            ).to_string();
            self.repository_modal_error(request_id, message);
            return ;
        }
        if find_workspace(&self.workspaces, workspace_id).is_none() {
            return ;
        }
        self.modals.project_submitting = true;
        self.busy = Some(self.tr("Adding repositories…", "Agregando repositorios…").to_string());
        self.emit(Effect::AddRepositories { modal: request_id, workspace_id, sources, mode });
        self.notify();
        assert(self.effects@ =~= before.effects@ + seq![
            Effect::AddRepositories { modal: request_id, workspace_id, sources: wanted, mode },
            Effect::Redraw,
        ]);
    }
}

/// What came of adding repositories to a project: the sources that were added,
/// and what stopped the rest. `stored` is what came of writing the record, where
/// any was added.
#[derive(Debug)]
pub struct AddedRepositories {
    pub workspace: Workspace,
    pub completed: Vec<String>,
    pub error: Option<String>,
    pub stored: Result<(), String>,
}

impl BlackholesApp {
    /// What is told of additions that failed or were only partly made.
    pub open spec fn addition_failure(&self, workspace_id: Id, added: AddedRepositories) -> Option<Seq<char>> {
        if workspace_at(self.workspaces@, workspace_id) is None {
            Some(
                self.text(
                    "The project was removed while adding repositories. Any copied files remain in its folder."@,
                    "El proyecto se quitó mientras se agregaban repositorios. Los archivos copiados permanecen en su carpeta."@,
                ),
            )
        } else {
            match added.stored {
                Err(error) if added.completed@.len() > 0 => Some(
                    "Repositories were added on disk, but registration could not be saved: "@
                        + error@
                        + ". Their files are preserved in the project folder. Refresh the project before continuing."@,
                ),
                _ => crate::model::text_of(added.error),
            }
        }
    }

    /// `after` is `before` with the repositories that were added taken in.
    pub open spec fn takes_additions(before: Self, after: Self, workspace_id: Id, added: AddedRepositories) -> bool {
        if workspace_at(before.workspaces@, workspace_id) is Some && added.completed@.len() > 0
            && added.stored is Ok {
            Self::puts_project(before, after, workspace_id, added.workspace)
        } else {
            after == before
        }
    }

    /// `after` is `before` with additions told as complete.
    pub open spec fn tells_additions(before: Self, after: Self) -> bool {
        exists|closed: BlackholesApp| #[trigger]
            Self::dismisses(before, closed) && Self::reports(
                closed,
                after,
                before.text("Repositories added"@, "Repositorios agregados"@),
                false,
            )
    }

    /// `after` is `before` with additions told as failed.
    pub open spec fn tells_partial(
        before: Self,
        after: Self,
        modal: Id,
        failure: Seq<char>,
        completed: Vec<String>,
    ) -> bool {
        exists|message: String|
            message@ == failure && #[trigger] Self::requests(
                before,
                after,
                seq![Effect::ModalPartial { modal, message, completed }],
            )
    }

    /// `after` is `before` with the dialog for more repositories answered.
    pub open spec fn answers_additions(
        before: Self,
        after: Self,
        request_id: Id,
        failure: Option<Seq<char>>,
        completed: Vec<String>,
    ) -> bool {
        if before.modals.project_request != Some(request_id) {
            after == before
        } else {
            match failure {
                Some(text) => Self::tells_partial(before, after, request_id, text, completed),
                None => Self::tells_additions(before, after),
            }
        }
    }

    /// `after` is `before` with everything published again.
    pub open spec fn republishes(before: Self, after: Self) -> bool {
        Self::requests(
            before,
            after,
            seq![Effect::PublishNavigation] + before.publishes_surface() + seq![Effect::Redraw],
        )
    }

    pub(crate) fn republish(&mut self)
        ensures
            Self::republishes(*old(self), *final(self)),
    {
        self.emit(Effect::PublishNavigation);
        self.hydrate_active_workspace_surface();
        self.notify();
        assert(self.effects@ =~= old(self).effects@ + (seq![Effect::PublishNavigation]
            + old(self).publishes_surface() + seq![Effect::Redraw]));
    }

    /// `after` is `before` with the outcome of additions to a project.
    pub open spec fn finishes_additions(
        before: Self,
        after: Self,
        request_id: Id,
        workspace_id: Id,
        added: AddedRepositories,
    ) -> bool {
        exists|taken: BlackholesApp, answered: BlackholesApp|
            {
                &&& #[trigger] Self::takes_additions(
                    before.project_settled().idle(),
                    taken,
                    workspace_id,
                    added,
                )
                &&& #[trigger] Self::answers_additions(
                    taken,
                    answered,
                    request_id,
                    before.addition_failure(workspace_id, added),
                    added.completed,
                )
                &&& Self::republishes(answered, after)
            }
    }

    /// The repositories of a dialog were added, as far as that went.
    pub fn finish_add_repositories(
        &mut self,
        request_id: Id,
        workspace_id: Id,
        added: AddedRepositories,
    )
        ensures
            Self::finishes_additions(
                *old(self),
                *final(self),
                request_id,
                workspace_id,
                added,
            ),
    {
        let ghost before = *self;
        let ghost wanted = added;
        self.modals.project_submitting = false;
        self.busy = None;
        assert(*self == before.project_settled().idle());
        let AddedRepositories { workspace, completed, error, stored } = added;
        let mut failure: Option<String> = error;
        match find_workspace(&self.workspaces, workspace_id) {
            Some(at) => {
                if completed.len() > 0 {
                    match stored {
                        Err(cause) => {
                            failure =
                            Some(
                                join3(
                                    "Repositories were added on disk, but registration could not be saved: ",
                                    cause.as_str(),
                                    ". Their files are preserved in the project folder. Refresh the project before continuing.",
                                ),
                            );
                        },
                        Ok(_) => {
                            self.workspaces[at] = workspace;
                            assert(self.workspaces@ =~= before.workspaces@.update(
                                at as int,
                                wanted.workspace,
                            ));
                            assert(Self::puts_project(
                                before.project_settled().idle(),
                                *self,
                                workspace_id,
                                wanted.workspace,
                            ));
                        },
                    }
                }
            },
            None => {
                failure =
                Some(
                    self.tr(
                        "The project was removed while adding repositories. Any copied files remain in its folder.",
                        "El proyecto se quitó mientras se agregaban repositorios. Los archivos copiados permanecen en su carpeta.",
                    ).to_string(),
                );
            },
        }
        let ghost taken = *self;
        assert(Self::takes_additions(
            before.project_settled().idle(),
            taken,
            workspace_id,
            wanted,
        ));
        assert(crate::model::text_of(failure) == before.addition_failure(workspace_id, wanted));
        if self.modals.project_request == Some(request_id) {
            match failure {
                Some(message) => {
                    let ghost text = message;
                    self.emit(Effect::ModalPartial { modal: request_id, message, completed });
                    assert(Self::requests(
                        taken,
                        *self,
                        seq![
                            Effect::ModalPartial {
                                modal: request_id,
                                message: text,
                                completed: wanted.completed,
                            },
                        ],
                    ));
                },
                None => {
                    self.dismiss_app_modal();
                    assert(Self::dismisses(taken, *self));
                    let message = self.tr(
                        "Repositories added",
                        "Repositorios agregados",
                    ).to_string();
                    self.set_status(message, false);
                },
            }
        }
        let ghost answered = *self;
        assert(Self::answers_additions(
            taken,
            answered,
            request_id,
            before.addition_failure(workspace_id, wanted),
            wanted.completed,
        ));
        self.republish();
    }
}

// ---------------------------------------------------------------------------
// A repository taken from a project
// ---------------------------------------------------------------------------
/// A task of the records has the repository.
pub open spec fn has_attached(tasks: Seq<ProjectTask>, repository_id: Id) -> bool {
    exists|i: int|
        0 <= i < tasks.len() && task_repository_at(
            (#[trigger] tasks[i]).repositories@,
            repository_id,
        ) is Some
}

fn is_attached(tasks: &Vec<ProjectTask>, repository_id: Id) -> (result: bool)
    ensures
        result == has_attached(tasks@, repository_id),
{
    let mut index: usize = 0;
    while index < tasks.len()
        invariant
            index <= tasks@.len(),
            forall|i: int|
                0 <= i < index ==> task_repository_at(
                    (#[trigger] tasks@[i]).repositories@,
                    repository_id,
                ) is None,
        decreases tasks@.len() - index,
    {
        if find_task_repository(&tasks[index].repositories, repository_id).is_some() {
            return true;
        }
        index += 1;
    }
    false
}

/// A repository of the list lies in the folder.
pub open spec fn holds_under(repositories: Seq<Repository>, folder: Seq<char>) -> bool {
    exists|i: int|
        0 <= i < repositories.len() && is_under((#[trigger] repositories[i]).path@, folder)
}

/// The project has its root or a repository in the folder.
pub open spec fn uses_folder(workspace: Workspace, folder: Seq<char>) -> bool {
    (workspace.root_path matches Some(root) && is_under(root@, folder)) || holds_under(
        workspace.repositories@,
        folder,
    )
}

/// Another project of the records uses the folder.
pub open spec fn used_by_other(workspaces: Seq<Workspace>, workspace_id: Id, folder: Seq<char>) -> bool {
    exists|i: int|
        0 <= i < workspaces.len() && (#[trigger] workspaces[i]).id != workspace_id && uses_folder(
            workspaces[i],
            folder,
        )
}

fn is_used_by_other(workspaces: &Vec<Workspace>, workspace_id: Id, folder: &str) -> (result: bool)
    ensures
        result == used_by_other(workspaces@, workspace_id, folder@),
{
    let mut index: usize = 0;
    while index < workspaces.len()
        invariant
            index <= workspaces@.len(),
            forall|i: int|
                0 <= i < index ==> !((#[trigger] workspaces@[i]).id != workspace_id && uses_folder(
                    workspaces@[i],
                    folder@,
                )),
        decreases workspaces@.len() - index,
    {
        let workspace = &workspaces[index];
        if workspace.id != workspace_id {
            let mut used: bool = match &workspace.root_path {
                Some(root) => lies_under(root.as_str(), folder),
                None => false,
            };
            let mut inner: usize = 0;
            while inner < workspace.repositories.len()
                invariant
                    inner <= workspace.repositories@.len(),
                    used == ((workspace.root_path matches Some(root) && is_under(root@, folder@))
                        || holds_under(workspace.repositories@.take(inner as int), folder@)),
                decreases workspace.repositories@.len() - inner,
            {
                let ghost done = workspace.repositories@.take(inner as int);
                let ghost more = workspace.repositories@.take(inner + 1);
                let here: bool = lies_under(workspace.repositories[inner].path.as_str(), folder);
                proof {
                    assert(more =~= done.push(workspace.repositories@[inner as int]));
                    assert(holds_under(more, folder@) == (holds_under(done, folder@) || here)) by {
                        if holds_under(more, folder@) {
                            let i = choose|i: int|
                                0 <= i < more.len() && is_under(
                                    (#[trigger] more[i]).path@,
                                    folder@,
                                );
                            if i < done.len() {
                                assert(done[i] == more[i]);
                            }
                        }
                        if holds_under(done, folder@) {
                            let i = choose|i: int|
                                0 <= i < done.len() && is_under(
                                    (#[trigger] done[i]).path@,
                                    folder@,
                                );
                            assert(more[i] == done[i]);
                        }
                        if here {
                            assert(is_under(more[inner as int].path@, folder@));
                        }
                    }
                }
                if here {
                    used = true;
                }
                inner += 1;
            }
            assert(workspace.repositories@.take(inner as int) =~= workspace.repositories@);
            if used {
                return true;
            }
        }
        index += 1;
    }
    false
}

/// What the records and the disk say of a repository that is to go.
#[derive(Debug)]
pub struct RemovalEvidence {
    pub tasks: Result<Vec<ProjectTask>, String>,
    pub plan: Result<RemovalPlan, String>,
    pub workspaces: Result<Vec<Workspace>, String>,
}

impl BlackholesApp {
    /// An edit of the open file is not saved.
    pub open spec fn has_unsaved_file(&self) -> bool {
        self.active_file matches Some(file) && (file.dirty || file.save_state
            != NoteSaveState::Saved)
    }

    /// A terminal of the project is open.
    pub open spec fn has_terminals(&self, workspace_id: Id) -> bool {
        exists|i: int|
            0 <= i < self.session.terminals@.len() && (
            #[trigger] self.session.terminals@[i]).workspace_id == workspace_id
    }

    /// Why a repository cannot go, if so; the first reason that holds.
    pub open spec fn removal_refusal(
        &self,
        workspace_id: Id,
        repository_id: Id,
        evidence: RemovalEvidence,
    ) -> Option<Seq<char>> {
        if self.busy is Some {
            Some(
                self.text(
                    "Wait for active operations and agents to finish."@,
                    "Espera a que terminen las operaciones y los agentes activos."@,
                ),
            )
        } else if workspace_at(self.workspaces@, workspace_id) is None {
            Some("Project missing"@)
        } else {
            match evidence.tasks {
                Err(error) => Some(error@),
                Ok(tasks) => if has_attached(tasks@, repository_id) {
                    Some(
                        self.text(
                            "Remove this repository from its tasks first. Their worktrees must be preserved."@,
                            "Primero quita este repositorio de sus tareas. Es necesario proteger sus worktrees."@,
                        ),
                    )
                } else if self.has_terminals(workspace_id) {
                    Some(
                        self.text(
                            "Close this project's terminals before removing a repository."@,
                            "Cierra las terminales de este proyecto antes de eliminar un repositorio."@,
                        ),
                    )
                } else if self.has_unsaved_file() {
                    Some(
                        self.text(
                            "Save pending file edits first."@,
                            "Guarda primero los archivos con cambios pendientes."@,
                        ),
                    )
                } else {
                    self.folder_refusal(workspace_id, evidence)
                },
            }
        }
    }

    /// Why the folder of a repository cannot go, if so.
    pub open spec fn folder_refusal(&self, workspace_id: Id, evidence: RemovalEvidence) -> Option<Seq<char>> {
        match evidence.plan {
            Err(error) => Some(error@),
            Ok(plan) => if plan.linked {
                None
            } else {
                match evidence.workspaces {
                    Err(error) => Some(error@),
                    Ok(workspaces) => if used_by_other(workspaces@, workspace_id, plan.path@) {
                        Some(
                            self.text(
                                "Another project uses this folder. Remove that reference first."@,
                                "Otro proyecto utiliza esta carpeta. Quita primero esa referencia."@,
                            ),
                        )
                    } else {
                        None
                    },
                }
            },
        }
    }

    /// Whether a repository can go; if not, why.
    pub fn repository_removal_guard(
        &self,
        workspace_id: Id,
        repository_id: Id,
        evidence: &RemovalEvidence,
    ) -> (result: Result<(), String>)
        ensures
            match result {
                Ok(_) => self.removal_refusal(workspace_id, repository_id, *evidence) is None,
                Err(message) => self.removal_refusal(workspace_id, repository_id, *evidence)
                    == Some(message@),
            },
    {
        if self.busy.is_some() {
            return Err(
                self.tr(
                    "Wait for active operations and agents to finish.",
                    "Espera a que terminen las operaciones y los agentes activos.",
                ).to_string(),
            );
        }
        if find_workspace(&self.workspaces, workspace_id).is_none() {
            return Err("Project missing".to_string());
        }
        match &evidence.tasks {
            Err(error) => {
                return Err(error.clone());
            },
            Ok(tasks) => {
                if is_attached(tasks, repository_id) {
                    return Err(
                        self.tr(
                            "Remove this repository from its tasks first. Their worktrees must be preserved.",
                            "Primero quita este repositorio de sus tareas. Es necesario proteger sus worktrees.",
                        ).to_string(),
                    );
                }
            },
        }
        let mut index: usize = 0;
        while index < self.session.terminals.len()
            invariant
                index <= self.session.terminals@.len(),
                forall|i: int|
                    0 <= i < index ==> (#[trigger] self.session.terminals@[i]).workspace_id
                        != workspace_id,
                self.busy is None,
                workspace_at(self.workspaces@, workspace_id) is Some,
                evidence.tasks matches Ok(tasks) && !has_attached(tasks@, repository_id),
            decreases self.session.terminals@.len() - index,
        {
            if self.session.terminals[index].workspace_id == workspace_id {
                assert(self.has_terminals(workspace_id));
                return Err(
                    self.tr(
                        "Close this project's terminals before removing a repository.",
                        "Cierra las terminales de este proyecto antes de eliminar un repositorio.",
                    ).to_string(),
                );
            }
            index += 1;
        }
        assert(!self.has_terminals(workspace_id));
        let unsaved: bool = match &self.active_file {
            Some(file) => file.dirty || file.save_state != NoteSaveState::Saved,
            None => false,
        };
        if unsaved {
            return Err(
                self.tr(
                    "Save pending file edits first.",
                    "Guarda primero los archivos con cambios pendientes.",
                ).to_string(),
            );
        }
        match &evidence.plan {
            Err(error) => Err(error.clone()),
            Ok(plan) => {
                if plan.linked {
                    return Ok(());
                }
                match &evidence.workspaces {
                    Err(error) => Err(error.clone()),
                    Ok(workspaces) => {
                        if is_used_by_other(workspaces, workspace_id, plan.path.as_str()) {
                            Err(
                                self.tr(
                                    "Another project uses this folder. Remove that reference first.",
                                    "Otro proyecto utiliza esta carpeta. Quita primero esa referencia.",
                                ).to_string(),
                            )
                        } else {
                            Ok(())
                        }
                    },
                }
            },
        }
    }

    /// `after` is `before` with the user asked whether a repository is to go.
    pub open spec fn asks_to_remove_repository(
        before: Self,
        after: Self,
        request_id: Id,
        workspace_id: Id,
        repository_id: Id,
        plan: RemovalPlan,
    ) -> bool {
        Self::shows_modal(
            BlackholesApp {
                modals: Modals {
                    repository_removal: Some(
                        RepositoryRemoval { request_id, workspace_id, repository_id, plan },
                    ),
                    repository_workspace: None,
                    project_request: Some(request_id),
                    ..before.modals
                },
                ..before
            },
            after,
            ModalKind::RemoveRepository { request_id, workspace_id, repository_id },
        )
    }

    /// `after` is `before` with the removal of a repository wanted. `plan` is what that
    /// would do.
    pub open spec fn opens_removal(
        before: Self,
        after: Self,
        workspace_id: Id,
        repository_id: Id,
        plan: Result<RemovalPlan, String>,
    ) -> bool {
        if before.modals.submitting() || !before.has_workspace_webview || workspace_at(
            before.workspaces@,
            workspace_id,
        ) is None {
            after == before
        } else {
            match plan {
                Err(error) => Self::reports(before, after, error@, true),
                Ok(plan) => exists|request_id: Id| #[trigger]
                    Self::asks_to_remove_repository(
                        before,
                        after,
                        request_id,
                        workspace_id,
                        repository_id,
                        plan,
                    ),
            }
        }
    }

    /// The user wants to remove a repository.
    pub fn open_remove_repository(
        &mut self,
        workspace_id: Id,
        repository_id: Id,
        plan: Result<RemovalPlan, String>,
    )
        ensures
            Self::opens_removal(*old(self), *final(self), workspace_id, repository_id, plan),
    {
        let ghost before = *self;
        if self.modals.project_submitting || self.modals.task_submitting
            || !self.has_workspace_webview {
            return ;
        }
        if find_workspace(&self.workspaces, workspace_id).is_none() {
            return ;
        }
        match plan {
            Err(error) => self.set_status(error, true),
            Ok(plan) => {
                let ghost wanted = plan;
                let request_id: Id = fresh_id();
                self.modals.repository_removal =
                Some(RepositoryRemoval { request_id, workspace_id, repository_id, plan });
                self.modals.repository_workspace = None;
                self.modals.project_request = Some(request_id);
                self.show_modal(
                    ModalKind::RemoveRepository { request_id, workspace_id, repository_id },
                );
                assert(Self::asks_to_remove_repository(
                    before,
                    *self,
                    request_id,
                    workspace_id,
                    repository_id,
                    wanted,
                ));
            },
        }
    }

    /// The removal that a confirmation is about.
    pub open spec fn removal_of(&self, request_id: Id) -> Option<RepositoryRemoval> {
        match self.modals.repository_removal {
            Some(removal) if removal.request_id == request_id && self.modals.project_request
                == Some(request_id) && !self.modals.project_submitting => Some(removal),
            _ => None,
        }
    }

    /// `after` is `before` with the removal of a repository confirmed.
    pub open spec fn confirms_removal(
        before: Self,
        after: Self,
        request_id: Id,
        evidence: RemovalEvidence,
    ) -> bool {
        match before.removal_of(request_id) {
            None => after == before,
            Some(removal) => match before.removal_refusal(
                removal.workspace_id,
                removal.repository_id,
                evidence,
            ) {
                Some(message) => Self::draws_modal_error(before, after, request_id, message),
                None => Self::requests(
                    before,
                    after,
                    seq![
                        Effect::RemoveRepositoryFiles {
                            modal: request_id,
                            workspace_id: removal.workspace_id,
                            repository_id: removal.repository_id,
                        },
                    ],
                ),
            },
        }
    }

    /// The user confirmed that a repository is to go.
    pub fn confirm_remove_repository(&mut self, request_id: Id, evidence: &RemovalEvidence)
        ensures
            Self::confirms_removal(*old(self), *final(self), request_id, *evidence),
    {
        let ghost before = *self;
        let (workspace_id, repository_id): (Id, Id) = match &self.modals.repository_removal {
            Some(removal) => {
                if removal.request_id != request_id || self.modals.project_request != Some(
                    request_id,
                ) || self.modals.project_submitting {
                    return ;
                }
                (removal.workspace_id, removal.repository_id)
            },
            None => {
                return ;
            },
        };
        match self.repository_removal_guard(workspace_id, repository_id, evidence) {
            Err(message) => {
                self.repository_modal_error(request_id, message);
                self.notify();
            },
            Ok(_) => self.emit(
                Effect::RemoveRepositoryFiles { modal: request_id, workspace_id, repository_id },
            ),
        }
    }
}

pub open spec fn other_repository(repository_id: Id) -> spec_fn(Repository) -> bool {
    |repository: Repository| repository.id != repository_id
}

/// The paths that are ignored once one more is.
pub open spec fn ignoring(before: Seq<String>, after: Seq<String>, path: Seq<char>) -> bool {
    if has_path(before, components(path)) {
        after == before
    } else {
        &&& after.len() == before.len() + 1
        &&& after.drop_last() == before
        &&& after.last()@ == path
    }
}

/// `after` is `before` without a repository, whose path is ignored from now on.
pub open spec fn loses_repository(before: Workspace, after: Workspace, repository_id: Id, now: Time) -> bool {
    let repositories = before.repositories@.filter(other_repository(repository_id));
    &&& repository_at(before.repositories@, repository_id) matches Some(at) && ignoring(
        before.ignored_repository_paths@,
        after.ignored_repository_paths@,
        before.repositories@[at].path@,
    )
    &&& after.repositories@ == repositories
    &&& after == (Workspace {
        repositories: after.repositories,
        ignored_repository_paths: after.ignored_repository_paths,
        layout: if repositories.len() == 0 {
            WorkspaceLayout::Empty
        } else {
            WorkspaceLayout::MultiRepository
        },
        updated_at: now,
        ..before
    })
}

impl Workspace {
    /// The project without a repository; an error where it does not have it.
    pub fn without_repository(self, repository_id: Id) -> (result: Result<Workspace, String>)
        ensures
            match result {
                Ok(changed) => exists|now: Time| #[trigger]
                    loses_repository(self, changed, repository_id, now),
                Err(message) => repository_at(self.repositories@, repository_id) is None
                    && message@ == "Repository missing"@,
            },
    {
        let ghost before = self;
        let mut workspace = self;
        let path: String = match find_repository(&workspace.repositories, repository_id) {
            Some(at) => workspace.repositories[at].path.clone(),
            None => {
                return Err("Repository missing".to_string());
            },
        };
        if !contains_path(&workspace.ignored_repository_paths, path.as_str()) {
            workspace.ignored_repository_paths.push(path);
            assert(workspace.ignored_repository_paths@.drop_last()
                =~= before.ignored_repository_paths@);
        }
        let other = |repository: &Repository| -> (kept: bool)
            ensures
                kept == (repository.id != repository_id),
        { repository.id != repository_id };
        retain_where(
            &mut workspace.repositories,
            Ghost(other_repository(repository_id)),
            other,
        );
        workspace.layout =
        if workspace.repositories.len() == 0 {
            WorkspaceLayout::Empty
        } else {
            WorkspaceLayout::MultiRepository
        };
        let now: Time = current_time();
        workspace.updated_at = now;
        assert(loses_repository(before, workspace, repository_id, now));
        Ok(workspace)
    }
}

/// From where the files of a repository are moved back, where the record could
/// not be written after they were moved away: nowhere where they were not moved,
/// or where something stands in their place again.
pub fn files_to_move_back(moved: &Option<String>, occupied: bool) -> (result: Option<String>)
    ensures
        crate::model::text_of(result) == if occupied {
            None
        } else {
            crate::model::text_of(*moved)
        },
{
    if occupied {
        None
    } else {
        copy_text(moved)
    }
}

/// What is told where the record could not be written after the files of a
/// repository were moved away: whether they were put back, and where they are.
pub open spec fn failed_removal(
    error: Seq<char>,
    moved: Option<Seq<char>>,
    occupied: bool,
    restored: Result<(), String>,
) -> Seq<char> {
    match moved {
        None => error,
        Some(place) => if occupied {
            "Could not save removal: "@ + error + ". Files are safe in "@ + place
        } else {
            match restored {
                Ok(_) => error,
                Err(cause) => "Could not restore after database failure. Files are safe in "@
                    + place + ": "@ + cause@,
            }
        },
    }
}

/// What is told where the record could not be written. `moved` is where the files
/// went, `occupied` whether something stands in their place again, `restored`
/// what came of moving them back where nothing does.
pub fn removal_failure(
    error: &str,
    moved: &Option<String>,
    occupied: bool,
    restored: &Result<(), String>,
) -> (result: String)
    ensures
        result@ == failed_removal(error@, crate::model::text_of(*moved), occupied, *restored),
{
    match moved {
        None => error.to_string(),
        Some(place) => {
            if occupied {
                join4("Could not save removal: ", error, ". Files are safe in ", place.as_str())
            } else {
                match restored {
                    Ok(_) => error.to_string(),
                    Err(cause) => join4(
                        "Could not restore after database failure. Files are safe in ",
                        place.as_str(),
                        ": ",
                        cause.as_str(),
                    ),
                }
            }
        },
    }
}

impl BlackholesApp {
    /// `after` is `before` at the project that lost a repository, where that is
    /// the selected one.
    pub open spec fn returns_to_project(before: Self, after: Self, workspace_id: Id) -> bool {
        if before.session.selected_workspace_id == Some(workspace_id) {
            Self::selects_surface(
                BlackholesApp { active_file: None, ..before },
                after,
                workspace_id,
                None,
                None,
                false,
            )
        } else {
            after == before
        }
    }

    /// `after` is `before` with a repository gone from a project.
    pub open spec fn removes_repository(before: Self, after: Self, workspace_id: Id, workspace: Workspace) -> bool {
        exists|
            put: BlackholesApp,
            returned: BlackholesApp,
            closed: BlackholesApp,
            published: BlackholesApp,
            told: BlackholesApp,
        |
            {
                &&& #[trigger] Self::puts_project(before, put, workspace_id, workspace)
                &&& #[trigger] Self::returns_to_project(put, returned, workspace_id)
                &&& #[trigger] Self::dismisses(returned, closed)
                &&& #[trigger] Self::requests(
                    closed,
                    published,
                    seq![Effect::PublishNavigation] + closed.publishes_surface(),
                )
                &&& #[trigger] Self::reports(
                    published,
                    told,
                    before.text(
                        "Repository removed. Any moved files are recoverable from Trash."@,
                        "Repositorio eliminado. Los archivos movidos se pueden recuperar de la Papelera."@,
                    ),
                    false,
                )
                &&& Self::requests(told, after, seq![Effect::Redraw])
            }
    }

    /// `after` is `before` once a repository is gone from a project, or could not be
    /// removed. `result` is the project without it, whose record is written.
    pub open spec fn finishes_repository_removal(
        before: Self,
        after: Self,
        request_id: Id,
        workspace_id: Id,
        result: Result<Workspace, String>,
    ) -> bool {
        match result {
            Err(error) => Self::draws_modal_error(before, after, request_id, error@),
            Ok(workspace) => if workspace_at(before.workspaces@, workspace_id) is None {
                Self::draws_modal_error(before, after, request_id, "Project missing"@)
            } else {
                Self::removes_repository(before, after, workspace_id, workspace)
            },
        }
    }

    /// A repository is gone from a project, or could not be removed.
    pub fn finish_remove_repository(
        &mut self,
        request_id: Id,
        workspace_id: Id,
        result: Result<Workspace, String>,
    )
        ensures
            Self::finishes_repository_removal(*old(self), *final(self), request_id, workspace_id, result),
    {
        let ghost before = *self;
        let workspace = match result {
            Ok(workspace) => workspace,
            Err(error) => {
                self.repository_modal_error(request_id, error);
                self.notify();
                return ;
            },
        };
        let ghost wanted = workspace;
        let at: usize = match find_workspace(&self.workspaces, workspace_id) {
            Some(at) => at,
            None => {
                self.repository_modal_error(request_id, "Project missing".to_string());
                self.notify();
                return ;
            },
        };
        self.workspaces[at] = workspace;
        assert(self.workspaces@ =~= before.workspaces@.update(at as int, wanted));
        let ghost put = *self;
        assert(Self::puts_project(before, put, workspace_id, wanted));
        if self.session.selected_workspace_id == Some(workspace_id) {
            self.active_file = None;
            assert(*self == (BlackholesApp { active_file: None, ..put }));
            self.select_target(workspace_id, None, None);
        }
        let ghost returned = *self;
        assert(Self::returns_to_project(put, returned, workspace_id));
        self.dismiss_app_modal();
        let ghost closed = *self;
        assert(Self::dismisses(returned, closed));
        self.emit(Effect::PublishNavigation);
        self.hydrate_active_workspace_surface();
        let ghost published = *self;
        assert(published.effects@ =~= closed.effects@ + (seq![Effect::PublishNavigation]
            + closed.publishes_surface()));
        assert(Self::requests(
            closed,
            published,
            seq![Effect::PublishNavigation] + closed.publishes_surface(),
        ));
        let message = self.tr(
            "Repository removed. Any moved files are recoverable from Trash.",
            "Repositorio eliminado. Los archivos movidos se pueden recuperar de la Papelera.",
        ).to_string();
        self.set_status(message, false);
        assert(Self::reports(
            published,
            *self,
            before.text(
                "Repository removed. Any moved files are recoverable from Trash."@,
                "Repositorio eliminado. Los archivos movidos se pueden recuperar de la Papelera."@,
            ),
            false,
        ));
        self.notify();
    }
}

// ---------------------------------------------------------------------------
// What the dialogs promise
// ---------------------------------------------------------------------------
/// Dismissing leaves no dialog waiting; while something that was sent is being done,
/// the dialogs stay.
pub proof fn law_dialogs_dismissed(before: BlackholesApp, after: BlackholesApp)
    requires
        BlackholesApp::dismisses(before, after),
    ensures
        before.modals.task_submitting || before.modals.project_submitting ==> after == before,
        !before.modals.task_submitting && !before.modals.project_submitting ==> {
            &&& after.modals.project_request is None
            &&& after.modals.appearance_request is None
            &&& after.modals.task_request is None
            &&& after.modals.task_removal is None
            &&& after.modals.agent_removal is None
            &&& after.modals.repository_removal is None
            &&& after.modals.repository_workspace is None
            &&& after.modals.sources@.len() == 0
            &&& BlackholesApp::asked(before, after).contains(Effect::CloseModal)
            &&& BlackholesApp::asked(before, after).contains(
                Effect::ModalVisibility { visible: false },
            )
        },
        after.workspaces == before.workspaces,
        after.tasks == before.tasks,
        after.session == before.session,
{
    if !before.modals.submitting() {
        assert(BlackholesApp::asked(before, after)[0] is CloseModal);
        assert(BlackholesApp::asked(before, after)[1] is ModalVisibility);
    }
}

/// Nothing is removed before the user confirmed it: asking shows a dialog about that
/// project or task, and changes neither the projects, the tasks nor the session.
pub proof fn law_removal_only_asked(
    before: BlackholesApp,
    project: BlackholesApp,
    task: BlackholesApp,
    workspace_id: Id,
    task_id: Id,
)
    requires
        BlackholesApp::asks_to_remove_project(before, project, workspace_id),
        BlackholesApp::asks_to_remove_task(before, task, task_id),
        exists|i: int|
            0 <= i < before.workspaces@.len() && (#[trigger] before.workspaces@[i]).id
                == workspace_id,
        exists|i: int| 0 <= i < before.tasks@.len() && (#[trigger] before.tasks@[i]).id == task_id,
    ensures
        project.workspaces == before.workspaces && project.tasks == before.tasks && project.session
            == before.session,
        task.workspaces == before.workspaces && task.tasks == before.tasks && task.session
            == before.session,
        before.surface.show_terminal ==> BlackholesApp::asked(before, project) =~= seq![
            Effect::OpenDialog { dialog: Dialog::RemoveProject { workspace_id } },
        ],
        !before.surface.show_terminal ==> BlackholesApp::asked(before, project).contains(
            Effect::ShowModal { kind: ModalKind::RemoveProject { workspace_id } },
        ),
        before.has_workspace_webview ==> task.modals.task_removal == Some(task_id)
            && BlackholesApp::asked(before, task).contains(
            Effect::ShowModal { kind: ModalKind::RemoveTask { task_id } },
        ),
        !before.has_workspace_webview ==> BlackholesApp::asked(before, task) =~= seq![
            Effect::OpenDialog { dialog: Dialog::RemoveTask { task_id } },
        ],
{
    crate::search::lemma_first_where(before.workspaces@, crate::model::workspace_is(workspace_id), 0);
    crate::search::lemma_first_where(before.tasks@, crate::model::task_is(task_id), 0);
    let i = choose|i: int|
        0 <= i < before.workspaces@.len() && (#[trigger] before.workspaces@[i]).id == workspace_id;
    assert(crate::model::workspace_is(workspace_id)(before.workspaces@[i]));
    let j = choose|j: int|
        0 <= j < before.tasks@.len() && (#[trigger] before.tasks@[j]).id == task_id;
    assert(crate::model::task_is(task_id)(before.tasks@[j]));
    assert(BlackholesApp::asked(before, project)[0] == project.effects@[before.effects@.len() as int]);
    assert(BlackholesApp::asked(before, task)[0] == task.effects@[before.effects@.len() as int]);
}

/// A task is made from the dialog only where the dialog is the one that waits, nothing
/// is being done, it has a title and at least one repository, and every repository is
/// one of its project; a branch is checked only where it has a name. Anything else is
/// answered in the dialog, and nothing is made.
pub proof fn law_task_dialog_sent(
    before: BlackholesApp,
    after: BlackholesApp,
    request_id: Id,
    workspace_id: Id,
    request: CreateTaskRequest,
    check_only: bool,
    at: int,
)
    requires
        BlackholesApp::submits_task(before, after, request_id, workspace_id, request, check_only),
        0 <= at < before.workspaces@.len(),
        before.workspaces@[at].id == workspace_id,
        forall|i: int| 0 <= i < at ==> (#[trigger] before.workspaces@[i]).id != workspace_id,
    ensures
        ({
            let waits = before.modals.task_request == Some((request_id, workspace_id))
                && !before.modals.task_submitting;
            let known = request.repository_ids@.len() > 0 && forall|i: int|
                0 <= i < request.repository_ids@.len() ==> exists|k: int|
                    0 <= k < before.workspaces@[at].repositories@.len() && (
                    #[trigger] before.workspaces@[at].repositories@[k]).id
                        == #[trigger] request.repository_ids@[i];
            let named = if check_only {
                !is_blank(branch_of(request))
            } else {
                !is_blank(request.title@)
            };
            &&& !waits ==> after == before
            &&& waits && known && named ==> after.modals.task_submitting
            &&& waits && known && named && !check_only ==> BlackholesApp::asked(
                before,
                after,
            ).contains(
                Effect::CreateModalTask { modal: request_id, workspace_id, creation: request },
            )
            &&& waits && known && named && check_only ==> exists|i: int|
                0 <= i < BlackholesApp::asked(before, after).len() && (
                #[trigger] BlackholesApp::asked(before, after)[i] matches Effect::CheckBranches {
                    modal,
                    workspace_id: of,
                    check,
                } && modal == request_id && of == workspace_id && check.repository_ids@
                    == request.repository_ids@ && check.branch_name@ == branch_of(request)
                    && check.base_ref == request.base_ref && check.branch_source
                    == request.branch_source)
            &&& waits && !(known && named) ==> {
                &&& !after.modals.task_submitting
                &&& after.modals.task_request == before.modals.task_request
                &&& after.effects@.len() == before.effects@.len() + 1
                &&& after.effects@.last() matches Effect::ModalError { modal, .. } && modal
                    == request_id
            }
        }),
{
    crate::search::lemma_first_where(before.workspaces@, crate::model::workspace_is(workspace_id), 0);
    assert(crate::model::workspace_is(workspace_id)(before.workspaces@[at]));
    let repositories = before.workspaces@[at].repositories@;
    lemma_all_known(request.repository_ids@, repositories);
    let waits = before.modals.task_request == Some((request_id, workspace_id))
        && !before.modals.task_submitting;
    if waits && before.task_refusal(repositories, request, check_only) is None {
        assert(BlackholesApp::asked(before, after)[0] == after.effects@[before.effects@.len() as int]);
    }
}

proof fn lemma_all_known(repository_ids: Seq<Id>, repositories: Seq<Repository>)
    ensures
        all_known(repository_ids, repositories) <==> forall|i: int|
            0 <= i < repository_ids.len() ==> exists|k: int|
                0 <= k < repositories.len() && (#[trigger] repositories[k]).id
                    == #[trigger] repository_ids[i],
{
    assert forall|id: Id|
        #[trigger] repository_at(repositories, id) is Some <==> exists|k: int|
            0 <= k < repositories.len() && (#[trigger] repositories[k]).id == id by {
        let wanted = crate::model::repository_is(id);
        crate::search::lemma_first_where(repositories, wanted, 0);
        if exists|k: int| 0 <= k < repositories.len() && (#[trigger] repositories[k]).id == id {
            let k = choose|k: int|
                0 <= k < repositories.len() && (#[trigger] repositories[k]).id == id;
            assert(wanted(repositories[k]));
        }
        if let Some(k) = repository_at(repositories, id) {
            assert(wanted(repositories[k]));
        }
    }
    if all_known(repository_ids, repositories) {
        assert forall|i: int| 0 <= i < repository_ids.len() implies exists|k: int|
            0 <= k < repositories.len() && (#[trigger] repositories[k]).id
                == #[trigger] repository_ids[i] by {
            assert(repository_at(repositories, repository_ids[i]) is Some);
        }
    }
}

/// Once the dialog for a task was acted upon another can be sent. An error is shown in
/// the dialog, which goes on waiting; what a check found is shown there too. What comes
/// for a dialog that is gone changes nothing else.
pub proof fn law_task_dialog_answered(
    before: BlackholesApp,
    after: BlackholesApp,
    request_id: Id,
    workspace_id: Id,
    result: Result<TaskModalOutcome, String>,
    stored: Result<(), String>,
)
    requires
        BlackholesApp::finishes_task_modal(
            before,
            after,
            request_id,
            workspace_id,
            result,
            stored,
        ),
        !(result matches Ok(TaskModalOutcome::Created(_))),
    ensures
        !after.modals.task_submitting,
        after.modals.task_request == before.modals.task_request,
        after.tasks == before.tasks,
        before.modals.task_request != Some((request_id, workspace_id)) ==> after.effects
            == before.effects,
        before.modals.task_request == Some((request_id, workspace_id)) ==> match result {
            Err(error) => BlackholesApp::asked(before, after)[0] matches Effect::ModalError {
                modal,
                message,
            } && modal == request_id && message@ == error@,
            Ok(TaskModalOutcome::Checked(branches)) => BlackholesApp::asked(before, after)[0] == (
            Effect::ModalBranches { modal: request_id, branches }),
            _ => true,
        },
{
}

/// What a folder holds is offered beside what was offered before, every path once; and
/// nothing else is.
pub proof fn law_folder_offered(offered: Seq<Seq<char>>, found: Seq<FoundRepository>, path: Seq<char>)
    ensures
        offered.is_prefix_of(offered_with(offered, found)),
        offers(offered_with(offered, found), path) <==> offers(offered, path) || exists|i: int|
            0 <= i < found.len() && components((#[trigger] found[i]).path@) == components(path),
        forall|i: int, j: int|
            offered.len() <= j < offered_with(offered, found).len() && 0 <= i < j ==> components(
                #[trigger] offered_with(offered, found)[i],
            ) != components(#[trigger] offered_with(offered, found)[j]),
    decreases found.len(),
{
    if found.len() > 0 {
        let fewer = found.drop_last();
        let last = found.last().path@;
        law_folder_offered(offered, fewer, path);
        law_folder_offered(offered, fewer, last);
        let earlier = offered_with(offered, fewer);
        let all = offered_with(offered, found);
        if offers(earlier, path) {
            let i = choose|i: int|
                0 <= i < earlier.len() && components(#[trigger] earlier[i]) == components(path);
            assert(components(all[i]) == components(path));
        }
        if offers(all, path) && !offers(earlier, path) {
            let i = choose|i: int|
                0 <= i < all.len() && components(#[trigger] all[i]) == components(path);
            if i < earlier.len() {
                assert(components(earlier[i]) == components(path));
            }
            assert(components(found[found.len() - 1].path@) == components(path));
        }
        if exists|i: int|
            0 <= i < found.len() && components((#[trigger] found[i]).path@) == components(path) {
            let i = choose|i: int|
                0 <= i < found.len() && components((#[trigger] found[i]).path@) == components(path);
            if i < fewer.len() {
                assert(components(fewer[i].path@) == components(path));
            } else if offers(earlier, last) {
                let k = choose|k: int|
                    0 <= k < earlier.len() && components(#[trigger] earlier[k]) == components(last);
                assert(components(earlier[k]) == components(path));
            } else {
                assert(components(all[all.len() - 1]) == components(path));
            }
        }
        if offers(offered, path) || exists|i: int|
            0 <= i < fewer.len() && components((#[trigger] fewer[i]).path@) == components(path) {
            assert(offers(earlier, path));
        }
        if exists|i: int|
            0 <= i < fewer.len() && components((#[trigger] fewer[i]).path@) == components(path) {
            let i = choose|i: int|
                0 <= i < fewer.len() && components((#[trigger] fewer[i]).path@) == components(path);
            assert(components(found[i].path@) == components(path));
        }
        assert forall|i: int, j: int|
            offered.len() <= j < all.len() && 0 <= i < j implies components(#[trigger] all[i])
            != components(#[trigger] all[j]) by {
            if j < earlier.len() {
                assert(all[i] == earlier[i] && all[j] == earlier[j]);
            } else {
                assert(all[i] == earlier[i]);
            }
        }
    }
}

/// A folder that is chosen is looked through, and nothing else can be sent until it
/// was; where none is chosen, nothing changes.
pub proof fn law_folder_chosen(
    before: BlackholesApp,
    after: BlackholesApp,
    request_id: Id,
    path: Option<String>,
)
    requires
        BlackholesApp::folder_chosen(before, after, request_id, path),
    ensures
        after.modals.project_submitting == (path is Some || before.modals.project_submitting),
        after.effects@.len() == before.effects@.len() + 1,
        after.effects@.last() == match path {
            Some(path) => Effect::ScanProjectFolder { modal: request_id, path },
            None => Effect::ModalUnchanged { modal: request_id },
        },
        after.modals.project_request == before.modals.project_request,
{
}

/// A folder that was looked through offers what it holds, in the dialog that waits for
/// it; an empty one, or one that could not be read, is told as an error.
pub proof fn law_folder_scanned(
    before: BlackholesApp,
    after: BlackholesApp,
    request_id: Id,
    result: Result<Vec<FoundRepository>, String>,
)
    requires
        BlackholesApp::finishes_scan(before, after, request_id, result),
    ensures
        !after.modals.project_submitting,
        after.modals.project_request == before.modals.project_request,
        before.modals.project_request != Some(request_id) ==> after.effects == before.effects
            && after.modals.sources == before.modals.sources,
        before.modals.project_request == Some(request_id) ==> match result {
            Ok(found) if found@.len() > 0 => BlackholesApp::asked(before, after)[0] == (
            Effect::ModalRepositories { modal: request_id, found }) && forall|i: int|
                0 <= i < found@.len() ==> has_path(
                    after.modals.sources@,
                    components((#[trigger] found@[i]).path@),
                ),
            _ => (BlackholesApp::asked(before, after)[0] matches Effect::ModalError { modal, .. }
                && modal == request_id) && after.modals.sources == before.modals.sources,
        },
{
    if before.modals.project_request == Some(request_id) {
        match result {
            Ok(found) if found@.len() > 0 => {
                let texts = crate::text::views(before.modals.sources@);
                let sources = after.modals.sources@;
                assert forall|i: int| 0 <= i < found@.len() implies has_path(
                    sources,
                    components((#[trigger] found@[i]).path@),
                ) by {
                    let path = found@[i].path@;
                    law_folder_offered(texts, found@, path);
                    let views = crate::text::views(sources);
                    assert(offers(views, path));
                    let k = choose|k: int|
                        0 <= k < views.len() && components(#[trigger] views[k]) == components(path);
                    assert(components(sources[k]@) == components(path));
                }
            },
            _ => {},
        }
    }
}

/// A project is made from the dialog only where it has a name and every repository on
/// this machine is one that the dialog offered; its name is what was typed, without the
/// space around it.
pub proof fn law_project_dialog_sent(
    before: BlackholesApp,
    after: BlackholesApp,
    request_id: Id,
    name: Seq<char>,
    sources: Vec<RepositorySource>,
    mode: RepositoryMode,
)
    requires
        BlackholesApp::submits_project(before, after, request_id, name, sources, mode),
    ensures
        ({
            let waits = before.modals.project_request == Some(request_id)
                && !before.modals.project_submitting && before.modals.repository_workspace is None
                && before.modals.repository_removal is None;
            let offered = forall|i: int|
                0 <= i < sources@.len() ==> (#[trigger] sources@[i] matches RepositorySource::Local {
                    path,
                } ==> has_path(before.modals.sources@, components(path@)));
            &&& !waits ==> after == before
            &&& waits && !is_blank(name) && offered ==> {
                &&& after.modals.project_submitting
                &&& after.effects@.len() == before.effects@.len() + 1
                &&& after.effects@.last() matches Effect::CreateProject {
                    modal,
                    name: given,
                    sources: from,
                    mode: how,
                } && modal == request_id && given@ == trimmed(name) && from == sources && how == mode
            }
            &&& waits && !(!is_blank(name) && offered) ==> {
                &&& !after.modals.project_submitting
                &&& after.modals == before.modals
                &&& after.effects@.last() matches Effect::ModalError { modal, .. } && modal
                    == request_id
            }
        }),
{
    assert(all_offered(sources@, before.modals.sources@) <==> forall|i: int|
        0 <= i < sources@.len() ==> (#[trigger] sources@[i] matches RepositorySource::Local { path }
            ==> has_path(before.modals.sources@, components(path@))));
}

/// Repositories are added from the dialog only where there are some and every one on
/// this machine is one that the dialog offered.
pub proof fn law_additions_dialog_sent(
    before: BlackholesApp,
    after: BlackholesApp,
    request_id: Id,
    workspace_id: Id,
    sources: Vec<RepositorySource>,
    mode: RepositoryMode,
)
    requires
        BlackholesApp::submits_additions(before, after, request_id, workspace_id, sources, mode),
        exists|i: int|
            0 <= i < before.workspaces@.len() && (#[trigger] before.workspaces@[i]).id
                == workspace_id,
    ensures
        ({
            let waits = before.modals.project_request == Some(request_id)
                && !before.modals.project_submitting && before.modals.repository_workspace == Some(
                workspace_id,
            ) && before.busy is None;
            let offered = sources@.len() > 0 && forall|i: int|
                0 <= i < sources@.len() ==> (#[trigger] sources@[i] matches RepositorySource::Local {
                    path,
                } ==> has_path(before.modals.sources@, components(path@)));
            &&& !waits ==> after == before
            &&& waits && offered ==> {
                &&& after.modals.project_submitting
                &&& after.busy is Some
                &&& BlackholesApp::asked(before, after)[0] == (Effect::AddRepositories {
                    modal: request_id,
                    workspace_id,
                    sources,
                    mode,
                })
            }
            &&& waits && !offered ==> {
                &&& after.modals == before.modals
                &&& after.busy is None
                &&& after.effects@.last() matches Effect::ModalError { modal, .. } && modal
                    == request_id
            }
        }),
{
    assert(all_offered(sources@, before.modals.sources@) <==> forall|i: int|
        0 <= i < sources@.len() ==> (#[trigger] sources@[i] matches RepositorySource::Local { path }
            ==> has_path(before.modals.sources@, components(path@))));
    crate::search::lemma_first_where(before.workspaces@, crate::model::workspace_is(workspace_id), 0);
    let i = choose|i: int|
        0 <= i < before.workspaces@.len() && (#[trigger] before.workspaces@[i]).id == workspace_id;
    assert(crate::model::workspace_is(workspace_id)(before.workspaces@[i]));
}

/// A repository goes only where nothing is under way, no task has it, no terminal of
/// its project is open, no edit is unsaved, and what would happen is known; where its
/// files would be moved, no other project uses the folder. Each of these alone refuses
/// it.
pub proof fn law_repository_removal_guarded(
    app: BlackholesApp,
    workspace_id: Id,
    repository_id: Id,
    evidence: RemovalEvidence,
)
    ensures
        app.removal_refusal(workspace_id, repository_id, evidence) is None <==> {
            &&& app.busy is None
            &&& exists|i: int|
                0 <= i < app.workspaces@.len() && (#[trigger] app.workspaces@[i]).id == workspace_id
            &&& evidence.tasks is Ok
            &&& forall|i: int, k: int|
                0 <= i < evidence.tasks->Ok_0@.len() && 0 <= k
                    < evidence.tasks->Ok_0@[i].repositories@.len() ==> (
                #[trigger] evidence.tasks->Ok_0@[i].repositories@[k]).repository_id != repository_id
            &&& forall|i: int|
                0 <= i < app.session.terminals@.len() ==> (
                #[trigger] app.session.terminals@[i]).workspace_id != workspace_id
            &&& app.active_file matches Some(file) ==> !file.dirty && file.save_state
                == NoteSaveState::Saved
            &&& evidence.plan is Ok
            &&& evidence.plan->Ok_0.linked || (evidence.workspaces is Ok && forall|i: int|
                0 <= i < evidence.workspaces->Ok_0@.len() ==> (
                #[trigger] evidence.workspaces->Ok_0@[i]).id == workspace_id || !uses_folder(
                    evidence.workspaces->Ok_0@[i],
                    evidence.plan->Ok_0.path@,
                ))
        },
{
    crate::search::lemma_first_where(app.workspaces@, crate::model::workspace_is(workspace_id), 0);
    if exists|i: int|
        0 <= i < app.workspaces@.len() && (#[trigger] app.workspaces@[i]).id == workspace_id {
        let i = choose|i: int|
            0 <= i < app.workspaces@.len() && (#[trigger] app.workspaces@[i]).id == workspace_id;
        assert(crate::model::workspace_is(workspace_id)(app.workspaces@[i]));
    }
    if let Some(i) = workspace_at(app.workspaces@, workspace_id) {
        assert(crate::model::workspace_is(workspace_id)(app.workspaces@[i]));
    }
    if let Ok(tasks) = evidence.tasks {
        lemma_attached(tasks@, repository_id);
    }
}

proof fn lemma_attached(tasks: Seq<ProjectTask>, repository_id: Id)
    ensures
        !has_attached(tasks, repository_id) <==> forall|i: int, k: int|
            0 <= i < tasks.len() && 0 <= k < tasks[i].repositories@.len() ==> (
            #[trigger] tasks[i].repositories@[k]).repository_id != repository_id,
{
    let wanted = crate::model::task_repository_is(repository_id);
    assert forall|i: int| 0 <= i < tasks.len() implies (task_repository_at(
        (#[trigger] tasks[i]).repositories@,
        repository_id,
    ) is None <==> forall|k: int|
        0 <= k < tasks[i].repositories@.len() ==> (
        #[trigger] tasks[i].repositories@[k]).repository_id != repository_id) by {
        let repositories = tasks[i].repositories@;
        crate::search::lemma_first_where(repositories, wanted, 0);
        if let Some(k) = task_repository_at(repositories, repository_id) {
            assert(wanted(repositories[k]));
            assert(tasks[i].repositories@[k].repository_id == repository_id);
        } else {
            assert forall|k: int| 0 <= k < tasks[i].repositories@.len() implies (
            #[trigger] tasks[i].repositories@[k]).repository_id != repository_id by {
                assert(!wanted(repositories[k]));
            }
        }
    }
    if !has_attached(tasks, repository_id) {
        assert forall|i: int, k: int|
            0 <= i < tasks.len() && 0 <= k < tasks[i].repositories@.len() implies (
        #[trigger] tasks[i].repositories@[k]).repository_id != repository_id by {
            assert(task_repository_at(tasks[i].repositories@, repository_id) is None);
        }
    } else {
        let i = choose|i: int|
            0 <= i < tasks.len() && task_repository_at(
                (#[trigger] tasks[i]).repositories@,
                repository_id,
            ) is Some;
        assert(!(forall|k: int|
            0 <= k < tasks[i].repositories@.len() ==> (
            #[trigger] tasks[i].repositories@[k]).repository_id != repository_id));
    }
}

/// Files are moved only for a removal that waits for its confirmation and that nothing
/// refuses; anything that refuses it is told in the dialog.
pub proof fn law_removal_confirmed(
    before: BlackholesApp,
    after: BlackholesApp,
    request_id: Id,
    evidence: RemovalEvidence,
)
    requires
        BlackholesApp::confirms_removal(before, after, request_id, evidence),
    ensures
        ({
            let waits = before.modals.repository_removal is Some
                && before.modals.repository_removal->0.request_id == request_id
                && before.modals.project_request == Some(request_id)
                && !before.modals.project_submitting;
            let removal = before.modals.repository_removal->0;
            let refusal = before.removal_refusal(
                removal.workspace_id,
                removal.repository_id,
                evidence,
            );
            &&& !waits ==> after == before
            &&& waits && refusal is None ==> BlackholesApp::asked(before, after) =~= seq![
                Effect::RemoveRepositoryFiles {
                    modal: request_id,
                    workspace_id: removal.workspace_id,
                    repository_id: removal.repository_id,
                },
            ]
            &&& waits && refusal is Some ==> (BlackholesApp::asked(before, after)[0] matches
            Effect::ModalError { modal, message } && modal == request_id && message@ == refusal->0)
            &&& after.workspaces == before.workspaces && after.modals == before.modals
        }),
{
}

/// A project without a repository has every other one it had, in the same order, and
/// ignores the path of the one it lost from then on.
pub proof fn law_repository_lost(
    before: Workspace,
    after: Workspace,
    repository_id: Id,
    now: Time,
    at: int,
)
    requires
        loses_repository(before, after, repository_id, now),
        0 <= at < before.repositories@.len(),
        before.repositories@[at].id == repository_id,
        forall|i: int|
            0 <= i < before.repositories@.len() && i != at ==> (#[trigger] before.repositories@[i]).id
                != repository_id,
    ensures
        after.repositories@ == before.repositories@.remove(at),
        has_path(after.ignored_repository_paths@, components(before.repositories@[at].path@)),
        forall|i: int|
            0 <= i < before.ignored_repository_paths@.len() ==> has_path(
                after.ignored_repository_paths@,
                components((#[trigger] before.ignored_repository_paths@[i])@),
            ),
        after.layout == WorkspaceLayout::Empty <==> before.repositories@.len() == 1,
        after.updated_at == now,
        after.id == before.id && after.label == before.label && after.root_path == before.root_path,
{
    let repositories = before.repositories@;
    let wanted = crate::model::repository_is(repository_id);
    let keep = other_repository(repository_id);
    crate::search::lemma_first_where(repositories, wanted, 0);
    assert(wanted(repositories[at]));
    lemma_filter_one(repositories, keep, at);
    let ignored = before.ignored_repository_paths@;
    let now_ignored = after.ignored_repository_paths@;
    let path = repositories[at].path@;
    assert(ignoring(ignored, now_ignored, path));
    if !has_path(ignored, components(path)) {
        assert(components(now_ignored[ignored.len() as int]@) == components(path));
    }
    assert forall|i: int| 0 <= i < ignored.len() implies has_path(
        now_ignored,
        components((#[trigger] ignored[i])@),
    ) by {
        if !has_path(ignored, components(path)) {
            assert(now_ignored.drop_last()[i] == now_ignored[i]);
        }
        assert(components(now_ignored[i]@) == components(ignored[i]@));
    }
}

/// A filter that drops one position only removes it.
proof fn lemma_filter_one(repositories: Seq<Repository>, keep: spec_fn(Repository) -> bool, at: int)
    requires
        0 <= at < repositories.len(),
        forall|i: int| 0 <= i < repositories.len() ==> (keep(#[trigger] repositories[i]) <==> i != at),
    ensures
        repositories.filter(keep) == repositories.remove(at),
    decreases repositories.len(),
{
    reveal(Seq::filter);
    let fewer = repositories.drop_last();
    if at == repositories.len() - 1 {
        lemma_filter_none(fewer, keep);
        assert(repositories.remove(at) =~= fewer);
    } else {
        lemma_filter_one(fewer, keep, at);
        assert(keep(repositories.last()));
        assert(repositories.remove(at) =~= fewer.remove(at).push(repositories.last()));
    }
}

proof fn lemma_filter_none(repositories: Seq<Repository>, keep: spec_fn(Repository) -> bool)
    requires
        forall|i: int| 0 <= i < repositories.len() ==> keep(#[trigger] repositories[i]),
    ensures
        repositories.filter(keep) == repositories,
    decreases repositories.len(),
{
    reveal(Seq::filter);
    if repositories.len() > 0 {
        lemma_filter_none(repositories.drop_last(), keep);
        assert(repositories =~= repositories.drop_last().push(repositories.last()));
    }
}

/// A repository that could not be removed stays, and why is told in the dialog.
pub proof fn law_removal_failed(
    before: BlackholesApp,
    after: BlackholesApp,
    request_id: Id,
    workspace_id: Id,
    error: String,
)
    requires
        BlackholesApp::finishes_repository_removal(before, after, request_id, workspace_id, Err(error)),
    ensures
        after.workspaces == before.workspaces,
        after.session == before.session,
        after.modals == before.modals,
        BlackholesApp::asked(before, after)[0] matches Effect::ModalError { modal, message } && modal
            == request_id && message@ == error@,
{
}

/// Repositories that were added and stored stand in the project from then on, and
/// where all of them were, the dialog that asked closes; what was not stored
/// leaves the project as it was, the dialog that asked stays and is told why.
pub proof fn law_additions_answered(
    before: BlackholesApp,
    after: BlackholesApp,
    request_id: Id,
    workspace_id: Id,
    added: AddedRepositories,
    at: int,
)
    requires
        BlackholesApp::finishes_additions(before, after, request_id, workspace_id, added),
        0 <= at < before.workspaces@.len(),
        before.workspaces@[at].id == workspace_id,
        forall|i: int| 0 <= i < at ==> (#[trigger] before.workspaces@[i]).id != workspace_id,
        !before.modals.task_submitting,
    ensures
        after.busy is None,
        !after.modals.project_submitting,
        added.stored is Ok && added.completed@.len() > 0 ==> after.workspaces@
            == before.workspaces@.update(at, added.workspace),
        added.stored is Err || added.completed@.len() == 0 ==> after.workspaces
            == before.workspaces,
        before.modals.project_request == Some(request_id) ==> {
            &&& added.stored is Ok && added.error is None ==> after.modals.project_request is None
            &&& added.error is Some || (added.stored is Err && added.completed@.len() > 0)
                ==> after.modals.project_request == Some(request_id)
        },
        before.modals.project_request != Some(request_id) ==> after.modals.project_request
            == before.modals.project_request,
        after.tasks == before.tasks,
{
    let wanted = crate::model::workspace_is(workspace_id);
    crate::search::lemma_first_where(before.workspaces@, wanted, 0);
    assert(wanted(before.workspaces@[at]));
    let (taken, answered) = choose|taken: BlackholesApp, answered: BlackholesApp|
        {
            &&& #[trigger] BlackholesApp::takes_additions(
                before.project_settled().idle(),
                taken,
                workspace_id,
                added,
            )
            &&& #[trigger] BlackholesApp::answers_additions(
                taken,
                answered,
                request_id,
                before.addition_failure(workspace_id, added),
                added.completed,
            )
            &&& BlackholesApp::republishes(answered, after)
        };
}

/// The appearance of a project changes only from the dialog that was opened for
/// it. A change that was stored closes the dialog; one that was not leaves it and
/// tells there what the user is told.
pub proof fn law_appearance_answered(
    before: BlackholesApp,
    after: BlackholesApp,
    request_id: Id,
    workspace_id: Id,
    workspace: Workspace,
    outcome: Result<(), String>,
    at: int,
)
    requires
        BlackholesApp::submits_edit(
            before,
            after,
            request_id,
            workspace_id,
            workspace,
            outcome,
        ),
        0 <= at < before.workspaces@.len(),
        before.workspaces@[at].id == workspace_id,
        forall|i: int| 0 <= i < at ==> (#[trigger] before.workspaces@[i]).id != workspace_id,
        !before.modals.task_submitting,
        !before.modals.project_submitting,
    ensures
        before.modals.appearance_request != Some((request_id, workspace_id)) ==> after == before,
        before.modals.appearance_request == Some((request_id, workspace_id)) ==> {
            &&& after.workspaces@ == before.workspaces@.update(at, workspace)
            &&& outcome is Ok ==> after.modals.appearance_request is None && after.status is None
            &&& outcome is Err ==> after.modals.appearance_request
                == before.modals.appearance_request && (after.status matches Some(status)
                && status.error && (after.effects@.last() matches Effect::ModalError {
                modal,
                message,
            } && modal == request_id && message@ == status.message@))
        },
{
    if before.modals.appearance_request == Some((request_id, workspace_id)) {
        let (presented, done) = choose|presented: BlackholesApp, done: bool| #[trigger]
            BlackholesApp::presents_project(
                before,
                presented,
                workspace_id,
                workspace,
                outcome,
                done,
            ) && BlackholesApp::answers_edit(presented, after, request_id, done);
        crate::projects::law_project_replaced(
            before,
            presented,
            workspace_id,
            workspace,
            outcome,
            done,
            at,
        );
        crate::search::lemma_first_where(
            before.workspaces@,
            crate::model::workspace_is(workspace_id),
            0,
        );
    }
}

/// A removal that could not be saved says where the files are wherever they could
/// not be put back, and gives no more than the error where nothing was moved or
/// everything is back.
pub proof fn law_failed_removal_told(
    error: Seq<char>,
    moved: Option<Seq<char>>,
    occupied: bool,
    restored: Result<(), String>,
)
    ensures
        moved is None ==> failed_removal(error, moved, occupied, restored) == error,
        !occupied && restored is Ok ==> failed_removal(error, moved, occupied, restored) == error,
        (moved matches Some(place) && occupied) ==> moved->0.is_suffix_of(
            failed_removal(error, moved, occupied, restored),
        ),
        (moved matches Some(place) && !occupied && restored is Err) ==> failed_removal(
            error,
            moved,
            occupied,
            restored,
        ) == "Could not restore after database failure. Files are safe in "@ + moved->0 + ": "@
            + restored->Err_0@,
{
    if let Some(place) = moved {
        if occupied {
            let told = failed_removal(error, moved, occupied, restored);
            assert(told.subrange(told.len() - place.len(), told.len() as int) =~= place);
        }
    }
}

/// What is managed is the selected task, else the selected project; with neither
/// there is nothing to manage.
pub proof fn law_selected_managed(before: BlackholesApp, after: BlackholesApp, at: int)
    requires
        BlackholesApp::manages(before, after),
    ensures
        before.task_selected() is None && before.workspace_selected() is None ==> after == before,
        before.task_selected() is None && before.workspace_selected() == Some(at)
            ==> BlackholesApp::asked(before, after) =~= seq![
            Effect::OpenDialog {
                dialog: Dialog::ManageProject { workspace_id: before.workspaces@[at].id },
            },
        ],
        before.task_selected() == Some(at) ==> BlackholesApp::shows_task(
            before,
            after,
            before.tasks@[at].workspace_id,
            before.tasks@[at].id,
        ),
{
}

} // verus!
