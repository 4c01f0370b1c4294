//! The dialogs for a new task and for the repositories of a task.
use vstd::prelude::*;
use vstd::string::*;

use crate::app::{BlackholesApp, Modals};
use crate::clock::fresh_id;
use crate::drafts::{
    addition_line, addition_text, attached_line, choice_mark, creation_line, creation_text,
    option_line, repository_line, AddTaskRepositoriesRequest, BranchAvailability,
    CreateTaskRequest, DetachRepositoriesDraft, ExistingBranchAction,
    RemoveTaskRepositoriesRequest, RepositoryDraftOptions, TaskBranchSource, TaskDraftOptions,
};
use crate::effects::{Dialog, Effect, ModalKind};
use crate::ids::{contains_id, id_text, uuid_text, Id};
use crate::model::{
    find_repository, find_task, find_task_repository, find_workspace, in_language, repository_at,
    task_at, task_repository_at, task_repository_is, tr, workspace_at, Language, ProjectTask, Repository,
    TaskRepository, Workspace,
};
use crate::search::{lemma_filter_step, lemma_first_where};
use crate::text::{join2, join3};

verus! {

// ---------------------------------------------------------------------------
// Texts
// ---------------------------------------------------------------------------
/// The texts of the dialog for a new task.
#[derive(Debug)]
pub struct CreateTaskTexts {
    pub dialog_title: &'static str,
    pub submit_label: &'static str,
    pub title_label: &'static str,
    pub title_placeholder: &'static str,
    pub branch_label: &'static str,
    pub branch_placeholder: &'static str,
    pub description_label: &'static str,
    pub description_placeholder: String,
    pub repositories_label: &'static str,
    pub setup_label: &'static str,
    pub setup_placeholder: &'static str,
    pub base_label: &'static str,
    pub base_placeholder: &'static str,
    pub branch_source_label: &'static str,
    pub check_branch_label: &'static str,
    pub create_missing_label: &'static str,
    pub replace_divergent_label: &'static str,
    pub copy_changes_label: &'static str,
    pub copy_env_label: &'static str,
}

impl CreateTaskTexts {
    /// The texts are those of the language.
    pub open spec fn are_in(&self, language: Language) -> bool {
        &&& self.dialog_title@ == in_language(
            language,
            "Create isolated task workspace"@,
            "Crear espacio aislado para la tarea"@,
        )
        &&& self.submit_label@ == in_language(language, "Create task"@, "Crear tarea"@)
        &&& self.title_label@ == in_language(language, "Task title"@, "Título de la tarea"@)
        &&& self.title_placeholder@ == in_language(
            language,
            "e.g. Fix the login flow"@,
            "p. ej. Corregir el login"@,
        )
        &&& self.branch_label@ == in_language(
            language,
            "Branch name (optional)"@,
            "Nombre de rama (opcional)"@,
        )
        &&& self.branch_placeholder@ == in_language(
            language,
            "feature/new-branch · empty uses the current HEAD"@,
            "feature/nueva-rama · vacío usa el HEAD actual"@,
        )
        &&& self.description_label@ == in_language(
            language,
            "Description (optional)"@,
            "Descripción (opcional)"@,
        )
        &&& self.description_placeholder@ == in_language(
            language,
            "Short context for this"@ + " task…"@,
            "Contexto breve para esta tarea…"@,
        )
        &&& self.repositories_label@ == in_language(language, "Repositories"@, "Repositorios"@)
        &&& self.setup_label@ == in_language(
            language,
            "Setup command (optional)"@,
            "Comando de preparación (opcional)"@,
        )
        &&& self.setup_placeholder@ == in_language(
            language,
            "e.g. npm install"@,
            "p. ej. npm install"@,
        )
        &&& self.base_label@ == base_field(language)
        &&& self.base_placeholder@ == in_language(
            language,
            "master · empty branches from the current HEAD"@,
            "master · vacío parte del HEAD actual"@,
        )
        &&& self.branch_source_label@ == in_language(
            language,
            "Branch source"@,
            "Origen de la rama"@,
        )
        &&& self.check_branch_label@ == in_language(language, "Check branch"@, "Comprobar rama"@)
        &&& self.create_missing_label@ == create_missing_text(language)
        &&& self.replace_divergent_label@ == replace_divergent_text(language)
        &&& self.copy_changes_label@ == copy_changes_text(language)
        &&& self.copy_env_label@ == copy_env_text(language)
    }

    /// The texts of a language.
    pub fn of(language: Language) -> (result: Self)
        ensures
            result.are_in(language),
    {
        CreateTaskTexts {
            dialog_title: tr(
                language,
                "Create isolated task workspace",
                "Crear espacio aislado para la tarea",
            ),
            submit_label: tr(language, "Create task", "Crear tarea"),
            title_label: tr(language, "Task title", "Título de la tarea"),
            title_placeholder: tr(language, "e.g. Fix the login flow", "p. ej. Corregir el login"),
            branch_label: tr(language, "Branch name (optional)", "Nombre de rama (opcional)"),
            branch_placeholder: tr(
                language,
                "feature/new-branch · empty uses the current HEAD",
                "feature/nueva-rama · vacío usa el HEAD actual",
            ),
            description_label: tr(language, "Description (optional)", "Descripción (opcional)"),
            description_placeholder: match language {
                Language::English => join2("Short context for this", " task…"),
                Language::Spanish => "Contexto breve para esta tarea…".to_string(),
            },
            repositories_label: tr(language, "Repositories", "Repositorios"),
            setup_label: tr(
                language,
                "Setup command (optional)",
                "Comando de preparación (opcional)",
            ),
            setup_placeholder: tr(language, "e.g. npm install", "p. ej. npm install"),
            base_label: tr(language, "Base branch (optional)", "Rama base (opcional)"),
            base_placeholder: tr(
                language,
                "master · empty branches from the current HEAD",
                "master · vacío parte del HEAD actual",
            ),
            branch_source_label: tr(language, "Branch source", "Origen de la rama"),
            check_branch_label: tr(language, "Check branch", "Comprobar rama"),
            create_missing_label: create_missing_label(language),
            replace_divergent_label: replace_divergent_label(language),
            copy_changes_label: copy_changes_label(language),
            copy_env_label: copy_env_label(language),
        }
    }
}

pub open spec fn base_field(language: Language) -> Seq<char> {
    in_language(language, "Base branch (optional)"@, "Rama base (opcional)"@)
}

pub open spec fn create_missing_text(language: Language) -> Seq<char> {
    in_language(
        language,
        "Create the branch when it is missing"@,
        "Crear la rama cuando no exista"@,
    )
}

fn create_missing_label(language: Language) -> (result: &'static str)
    ensures
        result@ == create_missing_text(language),
{
    tr(language, "Create the branch when it is missing", "Crear la rama cuando no exista")
}

pub open spec fn replace_divergent_text(language: Language) -> Seq<char> {
    in_language(
        language,
        "Replace divergent local branches (a backup is kept)"@,
        "Reemplazar ramas locales divergentes (se conserva un respaldo)"@,
    )
}

fn replace_divergent_label(language: Language) -> (result: &'static str)
    ensures
        result@ == replace_divergent_text(language),
{
    tr(
        language,
        "Replace divergent local branches (a backup is kept)",
        "Reemplazar ramas locales divergentes (se conserva un respaldo)",
    )
}

pub open spec fn copy_changes_text(language: Language) -> Seq<char> {
    in_language(language, "Copy current local changes"@, "Copiar cambios locales actuales"@)
}

fn copy_changes_label(language: Language) -> (result: &'static str)
    ensures
        result@ == copy_changes_text(language),
{
    tr(language, "Copy current local changes", "Copiar cambios locales actuales")
}

pub open spec fn copy_env_text(language: Language) -> Seq<char> {
    in_language(language, "Copy .env files"@, "Copiar archivos .env"@)
}

fn copy_env_label(language: Language) -> (result: &'static str)
    ensures
        result@ == copy_env_text(language),
{
    tr(language, "Copy .env files", "Copiar archivos .env")
}

// ---------------------------------------------------------------------------
// Choices
// ---------------------------------------------------------------------------
/// One of several choices.
#[derive(Debug)]
pub struct ChoiceView {
    pub id: &'static str,
    pub label: &'static str,
    pub selected: bool,
}

pub open spec fn is_choice(choice: ChoiceView, id: Seq<char>, label: Seq<char>, selected: bool) -> bool {
    choice.id@ == id && choice.label@ == label && choice.selected == selected
}

/// The name of a source for a branch.
pub open spec fn source_text(language: Language, source: TaskBranchSource) -> Seq<char> {
    match source {
        TaskBranchSource::Current => in_language(language, "Current HEAD"@, "HEAD actual"@),
        TaskBranchSource::Local => in_language(language, "Local branch"@, "Rama local"@),
        TaskBranchSource::Remote => in_language(language, "Remote branch"@, "Rama remota"@),
    }
}

fn source_label(language: Language, source: TaskBranchSource) -> (result: &'static str)
    ensures
        result@ == source_text(language, source),
{
    match source {
        TaskBranchSource::Current => tr(language, "Current HEAD", "HEAD actual"),
        TaskBranchSource::Local => tr(language, "Local branch", "Rama local"),
        TaskBranchSource::Remote => tr(language, "Remote branch", "Rama remota"),
    }
}

/// The sources for a branch, with the chosen one marked.
pub open spec fn offers_sources(
    choices: Seq<ChoiceView>,
    language: Language,
    chosen: TaskBranchSource,
    current_id: Seq<char>,
    local_id: Seq<char>,
    remote_id: Seq<char>,
) -> bool {
    &&& choices.len() == 3
    &&& is_choice(
        choices[0],
        current_id,
        source_text(language, TaskBranchSource::Current),
        chosen == TaskBranchSource::Current,
    )
    &&& is_choice(
        choices[1],
        local_id,
        source_text(language, TaskBranchSource::Local),
        chosen == TaskBranchSource::Local,
    )
    &&& is_choice(
        choices[2],
        remote_id,
        source_text(language, TaskBranchSource::Remote),
        chosen == TaskBranchSource::Remote,
    )
}

fn source_choices(
    language: Language,
    chosen: TaskBranchSource,
    current_id: &'static str,
    local_id: &'static str,
    remote_id: &'static str,
) -> (result: Vec<ChoiceView>)
    ensures
        offers_sources(result@, language, chosen, current_id@, local_id@, remote_id@),
{
    let mut result: Vec<ChoiceView> = Vec::new();
    result.push(
        ChoiceView {
            id: current_id,
            label: source_label(language, TaskBranchSource::Current),
            selected: chosen == TaskBranchSource::Current,
        },
    );
    result.push(
        ChoiceView {
            id: local_id,
            label: source_label(language, TaskBranchSource::Local),
            selected: chosen == TaskBranchSource::Local,
        },
    );
    result.push(
        ChoiceView {
            id: remote_id,
            label: source_label(language, TaskBranchSource::Remote),
            selected: chosen == TaskBranchSource::Remote,
        },
    );
    result
}

/// What to do with a branch that exists: nothing is offered unless the branch
/// starts at the current commit.
pub open spec fn offers_actions(
    choices: Seq<ChoiceView>,
    draft: TaskDraftOptions,
    reuse_id: Seq<char>,
    reuse_label: Seq<char>,
    recreate_id: Seq<char>,
    recreate_label: Seq<char>,
) -> bool {
    if draft.branch_source == TaskBranchSource::Current {
        &&& choices.len() == 2
        &&& is_choice(
            choices[0],
            reuse_id,
            reuse_label,
            draft.existing_branch_action == ExistingBranchAction::Reuse,
        )
        &&& is_choice(
            choices[1],
            recreate_id,
            recreate_label,
            draft.existing_branch_action == ExistingBranchAction::Recreate,
        )
    } else {
        choices.len() == 0
    }
}

fn action_choices(
    draft: &TaskDraftOptions,
    reuse_id: &'static str,
    reuse_label: &'static str,
    recreate_id: &'static str,
    recreate_label: &'static str,
) -> (result: Vec<ChoiceView>)
    ensures
        offers_actions(
            result@,
            *draft,
            reuse_id@,
            reuse_label@,
            recreate_id@,
            recreate_label@,
        ),
{
    let mut result: Vec<ChoiceView> = Vec::new();
    if draft.branch_source == TaskBranchSource::Current {
        result.push(
            ChoiceView {
                id: reuse_id,
                label: reuse_label,
                selected: draft.existing_branch_action == ExistingBranchAction::Reuse,
            },
        );
        result.push(
            ChoiceView {
                id: recreate_id,
                label: recreate_label,
                selected: draft.existing_branch_action == ExistingBranchAction::Recreate,
            },
        );
    }
    result
}

/// A line for each result of a check.
pub open spec fn tells_results(
    lines: Option<Vec<String>>,
    draft: TaskDraftOptions,
    for_addition: bool,
) -> bool {
    match draft.availability {
        None => lines is None,
        Some(results) => lines matches Some(texts) && texts@.len() == results@.len()
            && forall|i: int|
            0 <= i < texts@.len() ==> (#[trigger] texts@[i])@ == if for_addition {
                addition_text(results@[i], draft.branch_source)
            } else {
                creation_text(results@[i], draft.branch_source)
            },
    }
}

fn result_lines(draft: &TaskDraftOptions, for_addition: bool) -> (result: Option<Vec<String>>)
    ensures
        tells_results(result, *draft, for_addition),
{
    match &draft.availability {
        None => None,
        Some(results) => {
            let mut lines: Vec<String> = Vec::new();
            let mut index: usize = 0;
            while index < results.len()
                invariant
                    index <= results@.len(),
                    lines@.len() == index,
                    forall|i: int|
                        0 <= i < index ==> (#[trigger] lines@[i])@ == if for_addition {
                            addition_text(results@[i], draft.branch_source)
                        } else {
                            creation_text(results@[i], draft.branch_source)
                        },
                decreases results@.len() - index,
            {
                if for_addition {
                    lines.push(addition_line(&results[index], draft.branch_source));
                } else {
                    lines.push(creation_line(&results[index], draft.branch_source));
                }
                index += 1;
            }
            Some(lines)
        },
    }
}

// ---------------------------------------------------------------------------
// A new task
// ---------------------------------------------------------------------------
/// A repository in the dialog for a new task; its options are shown where it is
/// chosen.
#[derive(Debug)]
pub struct RepositoryCard {
    pub repository_id: Id,
    pub element_id: String,
    pub name: String,
    pub selected: bool,
    pub options: Option<RepositoryDraftOptions>,
}

pub open spec fn is_card(card: RepositoryCard, repository: Repository, draft: TaskDraftOptions) -> bool {
    &&& card.repository_id == repository.id
    &&& card.element_id@ == "task-repository-"@ + uuid_text(repository.id)
    &&& card.name@ == repository.name@
    &&& card.selected == draft.selected_repositories@.contains(repository.id)
    &&& card.options == if draft.selected_repositories@.contains(repository.id) {
        Some(draft.options(repository.id))
    } else {
        None
    }
}

/// The dialog for a new task.
#[derive(Debug)]
pub struct CreateTaskDialog {
    pub texts: CreateTaskTexts,
    pub sources: Vec<ChoiceView>,
    pub actions: Vec<ChoiceView>,
    /// Whether a missing branch is created, where that can be chosen.
    pub create_missing: Option<bool>,
    /// Whether divergent branches are replaced, where that can be chosen.
    pub replace_divergent: Option<bool>,
    pub results: Option<Vec<String>>,
    pub repositories: Vec<RepositoryCard>,
}

pub open spec fn shown_if(shown: bool, value: bool) -> Option<bool> {
    if shown {
        Some(value)
    } else {
        None
    }
}

impl CreateTaskDialog {
    /// The dialog shows the draft.
    pub open spec fn shows(
        &self,
        draft: TaskDraftOptions,
        language: Language,
        repositories: Seq<Repository>,
    ) -> bool {
        &&& self.texts.are_in(language)
        &&& offers_sources(
            self.sources@,
            language,
            draft.branch_source,
            "task-branch-current"@,
            "task-branch-local"@,
            "task-branch-remote"@,
        )
        &&& offers_actions(
            self.actions@,
            draft,
            "reuse-existing-branch"@,
            in_language(language, "Reuse existing branch"@, "Reutilizar rama existente"@),
            "recreate-existing-branch"@,
            in_language(language, "Recreate from current HEAD"@, "Recrear desde el HEAD actual"@),
        )
        &&& self.create_missing == shown_if(
            draft.branch_source != TaskBranchSource::Current,
            draft.create_missing_branch,
        )
        &&& self.replace_divergent == shown_if(
            draft.branch_source == TaskBranchSource::Remote,
            draft.replace_divergent_local_branches,
        )
        &&& tells_results(self.results, draft, false)
        &&& self.repositories@.len() == repositories.len()
        &&& forall|i: int|
            0 <= i < repositories.len() ==> is_card(
                #[trigger] self.repositories@[i],
                repositories[i],
                draft,
            )
    }
}

/// The dialog for a new task, as the draft stands.
pub fn render_create_task(
    draft: &TaskDraftOptions,
    language: Language,
    repositories: &Vec<Repository>,
) -> (result: CreateTaskDialog)
    ensures
        result.shows(*draft, language, repositories@),
{
    let sections = draft.sections();
    let mut cards: Vec<RepositoryCard> = Vec::new();
    let mut index: usize = 0;
    while index < repositories.len()
        invariant
            index <= repositories@.len(),
            cards@.len() == index,
            forall|i: int|
                0 <= i < index ==> is_card(#[trigger] cards@[i], repositories@[i], *draft),
        decreases repositories@.len() - index,
    {
        let repository = &repositories[index];
        let selected: bool = draft.is_selected(repository.id);
        cards.push(
            RepositoryCard {
                repository_id: repository.id,
                element_id: join2("task-repository-", id_text(repository.id).as_str()),
                name: repository.name.clone(),
                selected,
                options: if selected {
                    Some(draft.options_for(repository.id))
                } else {
                    None
                },
            },
        );
        index += 1;
    }
    CreateTaskDialog {
        texts: CreateTaskTexts::of(language),
        sources: source_choices(
            language,
            draft.branch_source,
            "task-branch-current",
            "task-branch-local",
            "task-branch-remote",
        ),
        actions: action_choices(
            draft,
            "reuse-existing-branch",
            tr(language, "Reuse existing branch", "Reutilizar rama existente"),
            "recreate-existing-branch",
            tr(language, "Recreate from current HEAD", "Recrear desde el HEAD actual"),
        ),
        create_missing: if sections.create_missing {
            Some(draft.create_missing_branch)
        } else {
            None
        },
        replace_divergent: if sections.replace_divergent {
            Some(draft.replace_divergent_local_branches)
        } else {
            None
        },
        results: result_lines(draft, false),
        repositories: cards,
    }
}

impl BlackholesApp {
    /// No dialog can be opened: something is under way.
    pub open spec fn is_occupied(&self) -> bool {
        self.busy is Some || self.modals.task_submitting || self.modals.project_submitting
    }

    /// `after` is `before` with a dialog shown over the central surface.
    pub open spec fn shows_modal(before: Self, after: Self, kind: ModalKind) -> bool {
        Self::requests(
            before,
            after,
            seq![
                Effect::ShowModal { kind },
                Effect::ModalVisibility { visible: true },
                Effect::FocusWorkspace,
                Effect::Redraw,
            ],
        )
    }

    pub(crate) fn show_modal(&mut self, kind: ModalKind)
        ensures
            Self::shows_modal(*old(self), *final(self), kind),
    {
        self.emit(Effect::ShowModal { kind });
        self.emit(Effect::ModalVisibility { visible: true });
        self.emit(Effect::FocusWorkspace);
        self.notify();
        assert(self.effects@ =~= old(self).effects@ + seq![
            Effect::ShowModal { kind },
            Effect::ModalVisibility { visible: true },
            Effect::FocusWorkspace,
            Effect::Redraw,
        ]);
    }

    /// `after` is `before` with the dialog for a new task shown.
    pub open spec fn asks_for_task(before: Self, after: Self, workspace_id: Id, request_id: Id) -> bool {
        Self::shows_modal(
            BlackholesApp {
                modals: Modals {
                    task_request: Some((request_id, workspace_id)),
                    ..before.modals
                },
                ..before
            },
            after,
            ModalKind::CreateTask { request_id, workspace_id },
        )
    }

    /// `after` is `before` with the user asked for a new task, or told why there
    /// cannot be one.
    pub open spec fn opens_create_task(before: Self, after: Self) -> bool {
        if before.is_occupied() || before.workspace_selected() is None {
            after == before
        } else {
            let workspace = before.workspaces@[before.workspace_selected()->0];
            if workspace.repositories@.len() == 0 {
                Self::reports(
                    before,
                    after,
                    "Add a Git repository before creating a task"@,
                    true,
                )
            } else if before.has_workspace_webview {
                exists|request_id: Id| #[trigger]
                    Self::asks_for_task(before, after, workspace.id, request_id)
            } else {
                Self::requests(
                    before,
                    after,
                    seq![
                        Effect::OpenDialog {
                            dialog: Dialog::CreateTask { workspace_id: workspace.id },
                        },
                    ],
                )
            }
        }
    }

    /// The user wants a new task in the selected project.
    pub fn open_create_task(&mut self)
        ensures
            Self::opens_create_task(*old(self), *final(self)),
    {
        let ghost before = *self;
        if self.busy.is_some() || self.modals.task_submitting || self.modals.project_submitting {
            return ;
        }
        let at: usize = match self.selected_workspace() {
            Some(at) => at,
            None => {
                return ;
            },
        };
        let workspace_id: Id = self.workspaces[at].id;
        if self.workspaces[at].repositories.len() == 0 {
            self.set_status("Add a Git repository before creating a task".to_string(), true);
            return ;
        }
        if self.has_workspace_webview {
            let request_id: Id = fresh_id();
            self.modals.task_request = Some((request_id, workspace_id));
            self.show_modal(ModalKind::CreateTask { request_id, workspace_id });
            assert(Self::asks_for_task(before, *self, workspace_id, request_id));
        } else {
            self.emit(Effect::OpenDialog { dialog: Dialog::CreateTask { workspace_id } });
        }
    }

    /// `after` is `before` with an operation begun.
    pub open spec fn begins(before: Self, after: Self, text: Seq<char>, effect: Effect) -> bool {
        &&& after.busy matches Some(shown) && shown@ == text
        &&& after.effects@ == before.effects@ + seq![effect, Effect::Redraw]
        &&& after == (BlackholesApp { busy: after.busy, effects: after.effects, ..before })
    }

    pub(crate) fn begin(&mut self, text: String, effect: Effect)
        ensures
            Self::begins(*old(self), *final(self), text@, effect),
    {
        let ghost before = *self;
        let ghost wanted = effect;
        self.emit(effect);
        self.busy = Some(text);
        self.notify();
        assert(self.effects@ =~= before.effects@ + seq![wanted, Effect::Redraw]);
    }

    /// Creates the task that the user put together.
    pub fn start_create_task(&mut self, workspace_id: Id, creation: CreateTaskRequest)
        ensures
            Self::begins(
                *old(self),
                *final(self),
                old(self).text("Preparing Git worktrees…"@, "Preparando worktrees Git…"@),
                Effect::CreateTask { workspace_id, creation },
            ),
    {
        let text = self.tr("Preparing Git worktrees…", "Preparando worktrees Git…").to_string();
        self.begin(text, Effect::CreateTask { workspace_id, creation });
    }

    /// A branch was checked for a draft, or could not be. What was found is kept
    /// in the draft; for a new task, the message of an earlier failure goes.
    pub fn finish_branch_check(
        &mut self,
        draft: &mut TaskDraftOptions,
        result: Result<Vec<BranchAvailability>, String>,
        new_task: bool,
    )
        ensures
            match result {
                Ok(found) => {
                    &&& *final(draft) == (TaskDraftOptions {
                        availability: Some(found),
                        ..*old(draft)
                    })
                    &&& Self::requests(
                        BlackholesApp {
                            status: if new_task {
                                None
                            } else {
                                old(self).status
                            },
                            ..*old(self)
                        },
                        *final(self),
                        seq![Effect::Redraw],
                    )
                },
                Err(error) => {
                    &&& *final(draft) == *old(draft)
                    &&& Self::reports(
                        *old(self),
                        *final(self),
                        "Could not check the branch: "@ + error@,
                        true,
                    )
                },
            },
    {
        match result {
            Ok(found) => {
                draft.availability = Some(found);
                if new_task {
                    self.status = None;
                }
                self.notify();
            },
            Err(error) => {
                let message = join2("Could not check the branch: ", error.as_str());
                self.set_status(message, true);
            },
        }
    }
}

// ---------------------------------------------------------------------------
// More repositories for a task
// ---------------------------------------------------------------------------
/// The repository is not one of the task.
pub open spec fn not_attached(attached: Seq<TaskRepository>) -> spec_fn(Repository) -> bool {
    |repository: Repository| task_repository_at(attached, repository.id) is None
}

/// The repositories of a project that a task does not have.
pub open spec fn available_for(repositories: Seq<Repository>, attached: Seq<TaskRepository>) -> Seq<Repository> {
    repositories.filter(not_attached(attached))
}

/// The repositories of a project that a task does not have.
pub fn available_repositories(
    repositories: &Vec<Repository>,
    attached: &Vec<TaskRepository>,
) -> (result: Vec<Repository>)
    ensures
        result@ == available_for(repositories@, attached@),
{
    let ghost keep = not_attached(attached@);
    let mut result: Vec<Repository> = Vec::new();
    let mut index: usize = 0;
    assert(repositories@.take(0).filter(keep) =~= Seq::<Repository>::empty());
    while index < repositories.len()
        invariant
            keep == not_attached(attached@),
            index <= repositories@.len(),
            result@ == repositories@.take(index as int).filter(keep),
        decreases repositories@.len() - index,
    {
        proof {
            lemma_filter_step(repositories@, keep, index as int);
        }
        if find_task_repository(attached, repositories[index].id).is_none() {
            result.push(repositories[index].duplicate());
        }
        index += 1;
    }
    assert(repositories@.take(index as int) =~= repositories@);
    result
}

/// A repository in the dialog for additions. The other lines are shown where it
/// is chosen.
#[derive(Debug)]
pub struct AdditionRow {
    pub repository_id: Id,
    pub element_id: String,
    pub line: String,
    pub selected: bool,
    pub copy_changes_line: String,
    pub copy_env_line: String,
    pub setup_placeholder: String,
}

pub open spec fn is_addition_row(
    row: AdditionRow,
    repository: Repository,
    draft: TaskDraftOptions,
    language: Language,
) -> bool {
    let selected = draft.selected_repositories@.contains(repository.id);
    let options = draft.options(repository.id);
    &&& row.repository_id == repository.id
    &&& row.element_id@ == "add-task-repository-"@ + uuid_text(repository.id)
    &&& row.line@ == choice_mark(selected) + "  "@ + repository.name@
    &&& row.selected == selected
    &&& row.copy_changes_line@ == choice_mark(options.copy_local_changes) + " "@
        + copy_changes_text(language)
    &&& row.copy_env_line@ == choice_mark(options.copy_environment_files) + " "@ + copy_env_text(
        language,
    )
    &&& row.setup_placeholder@ == "Setup command for "@ + repository.name@ + " (optional)"@
}

/// The dialog for additions to a task.
#[derive(Debug)]
pub struct AddRepositoriesDialog {
    pub base_label: &'static str,
    pub base_placeholder: &'static str,
    pub sources: Vec<ChoiceView>,
    pub actions: Vec<ChoiceView>,
    pub create_missing_line: Option<String>,
    pub replace_divergent_line: Option<String>,
    pub can_check: bool,
    pub results: Option<Vec<String>>,
    pub repositories: Vec<AdditionRow>,
}

/// The line of an option, where it can be chosen.
pub open spec fn line_if(line: Option<String>, shown: bool, chosen: bool, label: Seq<char>) -> bool {
    if shown {
        line matches Some(text) && text@ == choice_mark(chosen) + " "@ + label
    } else {
        line is None
    }
}

impl AddRepositoriesDialog {
    /// The dialog shows the draft.
    pub open spec fn shows(
        &self,
        draft: TaskDraftOptions,
        language: Language,
        available: Seq<Repository>,
    ) -> bool {
        &&& self.base_label@ == base_field(language)
        &&& self.base_placeholder@ == in_language(
            language,
            "master · used only where the branch must be created"@,
            "master · solo donde haya que crear la rama"@,
        )
        &&& offers_sources(
            self.sources@,
            language,
            draft.branch_source,
            "add-branch-current"@,
            "add-branch-local"@,
            "add-branch-remote"@,
        )
        &&& offers_actions(
            self.actions@,
            draft,
            "add-reuse-existing"@,
            "Reuse existing branch"@,
            "add-recreate-existing"@,
            "Recreate from current HEAD"@,
        )
        &&& line_if(
            self.create_missing_line,
            draft.branch_source != TaskBranchSource::Current,
            draft.create_missing_branch,
            create_missing_text(language),
        )
        &&& line_if(
            self.replace_divergent_line,
            draft.branch_source == TaskBranchSource::Remote,
            draft.replace_divergent_local_branches,
            replace_divergent_text(language),
        )
        &&& self.can_check == (draft.branch_source != TaskBranchSource::Current)
        &&& tells_results(self.results, draft, true)
        &&& self.repositories@.len() == available.len()
        &&& forall|i: int|
            0 <= i < available.len() ==> is_addition_row(
                #[trigger] self.repositories@[i],
                available[i],
                draft,
                language,
            )
    }
}

/// The dialog for additions to a task, as the draft stands.
pub fn render_add_repositories(
    draft: &TaskDraftOptions,
    language: Language,
    available: &Vec<Repository>,
) -> (result: AddRepositoriesDialog)
    ensures
        result.shows(*draft, language, available@),
{
    let sections = draft.sections();
    let mut rows: Vec<AdditionRow> = Vec::new();
    let mut index: usize = 0;
    while index < available.len()
        invariant
            index <= available@.len(),
            rows@.len() == index,
            forall|i: int|
                0 <= i < index ==> is_addition_row(
                    #[trigger] rows@[i],
                    available@[i],
                    *draft,
                    language,
                ),
        decreases available@.len() - index,
    {
        let repository = &available[index];
        let selected: bool = draft.is_selected(repository.id);
        let options = draft.options_for(repository.id);
        rows.push(
            AdditionRow {
                repository_id: repository.id,
                element_id: join2("add-task-repository-", id_text(repository.id).as_str()),
                line: repository_line(selected, repository.name.as_str()),
                selected,
                copy_changes_line: option_line(
                    options.copy_local_changes,
                    copy_changes_label(language),
                ),
                copy_env_line: option_line(
                    options.copy_environment_files,
                    copy_env_label(language),
                ),
                setup_placeholder: join3(
                    "Setup command for ",
                    repository.name.as_str(),
                    " (optional)",
                ),
            },
        );
        index += 1;
    }
    AddRepositoriesDialog {
        base_label: tr(language, "Base branch (optional)", "Rama base (opcional)"),
        base_placeholder: tr(
            language,
            "master · used only where the branch must be created",
            "master · solo donde haya que crear la rama",
        ),
        sources: source_choices(
            language,
            draft.branch_source,
            "add-branch-current",
            "add-branch-local",
            "add-branch-remote",
        ),
        actions: action_choices(
            draft,
            "add-reuse-existing",
            "Reuse existing branch",
            "add-recreate-existing",
            "Recreate from current HEAD",
        ),
        create_missing_line: if sections.create_missing {
            Some(option_line(draft.create_missing_branch, create_missing_label(language)))
        } else {
            None
        },
        replace_divergent_line: if sections.replace_divergent {
            Some(
                option_line(
                    draft.replace_divergent_local_branches,
                    replace_divergent_label(language),
                ),
            )
        } else {
            None
        },
        can_check: sections.check_on_addition,
        results: result_lines(draft, true),
        repositories: rows,
    }
}

/// Where the project of a task stands.
pub open spec fn project_of(workspaces: Seq<Workspace>, task: ProjectTask) -> Option<int> {
    workspace_at(workspaces, task.workspace_id)
}

impl BlackholesApp {
    /// Where a task and its project stand, where both are known.
    pub open spec fn task_and_project(&self, task_id: Id) -> Option<(int, int)> {
        match task_at(self.tasks@, task_id) {
            Some(at) => match project_of(self.workspaces@, self.tasks@[at]) {
                Some(project) => Some((at, project)),
                None => None,
            },
            None => None,
        }
    }

    pub(crate) fn find_task_and_project(&self, task_id: Id) -> (result: Option<(usize, usize)>)
        ensures
            match result {
                Some((at, project)) => self.task_and_project(task_id) == Some(
                    (at as int, project as int),
                ) && at < self.tasks@.len() && project < self.workspaces@.len(),
                None => self.task_and_project(task_id) is None,
            },
    {
        match find_task(&self.tasks, task_id) {
            Some(at) => match find_workspace(&self.workspaces, self.tasks[at].workspace_id) {
                Some(project) => Some((at, project)),
                None => None,
            },
            None => None,
        }
    }

    /// The task has a branch that additions can use.
    pub open spec fn has_branch(task: ProjectTask) -> bool {
        task.branch matches Some(branch) && branch@.len() > 0
    }

    /// `after` is `before` with the user asked for additions to a task, or told
    /// why there cannot be any.
    pub open spec fn offers_additions(
        before: Self,
        after: Self,
        task_id: Id,
        task: ProjectTask,
        repositories: Seq<Repository>,
    ) -> bool {
        if available_for(repositories, task.repositories@).len() == 0 {
            Self::reports(
                before,
                after,
                "Every project repository is already attached to this"@ + " task"@,
                false,
            )
        } else if !Self::has_branch(task) {
            Self::reports(before, after, "This"@ + " task does not have a branch to reuse"@, true)
        } else {
            Self::requests(
                before,
                after,
                seq![Effect::OpenDialog { dialog: Dialog::AddTaskRepositories { task_id } }],
            )
        }
    }

    /// The user wants to add repositories to a task.
    pub fn open_add_task_repositories(&mut self, task_id: Id)
        ensures
            match old(self).task_and_project(task_id) {
                None => *final(self) == *old(self),
                Some((at, project)) => Self::offers_additions(
                    *old(self),
                    *final(self),
                    task_id,
                    old(self).tasks@[at],
                    old(self).workspaces@[project].repositories@,
                ),
            },
    {
        let (at, project): (usize, usize) = match self.find_task_and_project(task_id) {
            Some(found) => found,
            None => {
                return ;
            },
        };
        let available = available_repositories(
            &self.workspaces[project].repositories,
            &self.tasks[at].repositories,
        );
        if available.len() == 0 {
            self.set_status(
                join2("Every project repository is already attached to this", " task"),
                false,
            );
            return ;
        }
        let usable: bool = match &self.tasks[at].branch {
            Some(branch) => branch.as_str().unicode_len() > 0,
            None => false,
        };
        if !usable {
            self.set_status(join2("This", " task does not have a branch to reuse"), true);
            return ;
        }
        self.emit(Effect::OpenDialog { dialog: Dialog::AddTaskRepositories { task_id } });
    }

    /// Adds the repositories that the user chose to a task.
    pub fn start_add_task_repositories(&mut self, task_id: Id, addition: AddTaskRepositoriesRequest)
        ensures
            Self::begins(
                *old(self),
                *final(self),
                "Adding isolated worktrees…"@,
                Effect::AddTaskRepositories { task_id, addition },
            ),
    {
        self.begin(
            "Adding isolated worktrees…".to_string(),
            Effect::AddTaskRepositories { task_id, addition },
        );
    }
}

// ---------------------------------------------------------------------------
// Repositories taken from a task
// ---------------------------------------------------------------------------
/// A repository of a task in the dialog for removals.
#[derive(Debug)]
pub struct AttachedRow {
    pub repository_id: Id,
    pub element_id: String,
    pub line: String,
    pub selected: bool,
}

/// The name of a repository of a task: its branch where the project does not have
/// the repository any more.
pub open spec fn attached_name(repositories: Seq<Repository>, attached: TaskRepository) -> Seq<char> {
    match repository_at(repositories, attached.repository_id) {
        Some(at) => repositories[at].name@,
        None => attached.branch@,
    }
}

pub open spec fn is_attached_row(
    row: AttachedRow,
    repositories: Seq<Repository>,
    attached: TaskRepository,
    draft: DetachRepositoriesDraft,
) -> bool {
    let selected = draft.selected_repositories@.contains(attached.repository_id);
    &&& row.repository_id == attached.repository_id
    &&& row.element_id@ == "remove-task-repository-"@ + uuid_text(attached.repository_id)
    &&& row.line@ == choice_mark(selected) + "  "@ + attached_name(repositories, attached)
        + "  ·  "@ + attached.branch@
    &&& row.selected == selected
}

/// The dialog for removals from a task.
#[derive(Debug)]
pub struct RemoveRepositoriesDialog {
    pub title: &'static str,
    pub submit_label: &'static str,
    pub repositories: Vec<AttachedRow>,
    pub delete_branch_line: String,
    pub discard_line: String,
}

impl RemoveRepositoriesDialog {
    /// The dialog shows the draft.
    pub open spec fn shows(
        &self,
        draft: DetachRepositoriesDraft,
        language: Language,
        repositories: Seq<Repository>,
        attached: Seq<TaskRepository>,
    ) -> bool {
        &&& self.title@ == in_language(
            language,
            "Remove repositories from task"@,
            "Quitar repositorios de la tarea"@,
        )
        &&& self.submit_label@ == in_language(language, "Remove"@, "Quitar"@)
        &&& self.delete_branch_line@ == choice_mark(draft.delete_branch) + " "@ + in_language(
            language,
            "Delete the local branch too (needed to add it again on another base)"@,
            "Eliminar también la rama local (necesario para volver a agregarlo con otra base)"@,
        )
        &&& self.discard_line@ == choice_mark(draft.discard_uncommitted_changes) + " "@
            + in_language(
            language,
            "Discard uncommitted changes in the worktree"@,
            "Descartar cambios sin confirmar en el worktree"@,
        )
        &&& self.repositories@.len() == attached.len()
        &&& forall|i: int|
            0 <= i < attached.len() ==> is_attached_row(
                #[trigger] self.repositories@[i],
                repositories,
                attached[i],
                draft,
            )
    }
}

/// The dialog for removals from a task, as the draft stands.
pub fn render_remove_repositories(
    draft: &DetachRepositoriesDraft,
    language: Language,
    repositories: &Vec<Repository>,
    attached: &Vec<TaskRepository>,
) -> (result: RemoveRepositoriesDialog)
    ensures
        result.shows(*draft, language, repositories@, attached@),
{
    let mut rows: Vec<AttachedRow> = Vec::new();
    let mut index: usize = 0;
    while index < attached.len()
        invariant
            index <= attached@.len(),
            rows@.len() == index,
            forall|i: int|
                0 <= i < index ==> is_attached_row(
                    #[trigger] rows@[i],
                    repositories@,
                    attached@[i],
                    *draft,
                ),
        decreases attached@.len() - index,
    {
        let repository = &attached[index];
        let selected: bool = contains_id(&draft.selected_repositories, repository.repository_id);
        let name = match find_repository(repositories, repository.repository_id) {
            Some(at) => repositories[at].name.as_str(),
            None => repository.branch.as_str(),
        };
        rows.push(
            AttachedRow {
                repository_id: repository.repository_id,
                element_id: join2(
                    "remove-task-repository-",
                    id_text(repository.repository_id).as_str(),
                ),
                line: attached_line(selected, name, repository.branch.as_str()),
                selected,
            },
        );
        index += 1;
    }
    RemoveRepositoriesDialog {
        title: tr(language, "Remove repositories from task", "Quitar repositorios de la tarea"),
        submit_label: tr(language, "Remove", "Quitar"),
        repositories: rows,
        delete_branch_line: option_line(
            draft.delete_branch,
            tr(
                language,
                "Delete the local branch too (needed to add it again on another base)",
                "Eliminar también la rama local (necesario para volver a agregarlo con otra base)",
            ),
        ),
        discard_line: option_line(
            draft.discard_uncommitted_changes,
            tr(
                language,
                "Discard uncommitted changes in the worktree",
                "Descartar cambios sin confirmar en el worktree",
            ),
        ),
    }
}

impl BlackholesApp {
    /// `after` is `before` with the user asked what to take from a task, or told
    /// that it keeps its only repository.
    pub open spec fn offers_detachment(before: Self, after: Self, task_id: Id, task: ProjectTask) -> bool {
        if task.repositories@.len() < 2 {
            Self::reports(
                before,
                after,
                before.text(
                    "A task keeps at least one repository; delete the whole task instead"@,
                    "Una tarea conserva al menos un repositorio; elimina la tarea completa"@,
                ),
                true,
            )
        } else {
            Self::requests(
                before,
                after,
                seq![Effect::OpenDialog { dialog: Dialog::RemoveTaskRepositories { task_id } }],
            )
        }
    }

    /// The user wants to take repositories from a task, which keeps at least one.
    pub fn open_remove_task_repositories(&mut self, task_id: Id)
        ensures
            match old(self).task_and_project(task_id) {
                None => *final(self) == *old(self),
                Some((at, project)) => Self::offers_detachment(
                    *old(self),
                    *final(self),
                    task_id,
                    old(self).tasks@[at],
                ),
            },
    {
        let at: usize = match self.find_task_and_project(task_id) {
            Some((at, _)) => at,
            None => {
                return ;
            },
        };
        if self.tasks[at].repositories.len() < 2 {
            let message = self.tr(
                "A task keeps at least one repository; delete the whole task instead",
                "Una tarea conserva al menos un repositorio; elimina la tarea completa",
            ).to_string();
            self.set_status(message, true);
            return ;
        }
        self.emit(Effect::OpenDialog { dialog: Dialog::RemoveTaskRepositories { task_id } });
    }

    /// Takes the repositories that the user chose from a task.
    pub fn start_remove_task_repositories(
        &mut self,
        task_id: Id,
        detachment: RemoveTaskRepositoriesRequest,
    )
        ensures
            Self::begins(
                *old(self),
                *final(self),
                old(self).text("Removing worktrees…"@, "Quitando worktrees…"@),
                Effect::DetachTaskRepositories { task_id, detachment },
            ),
    {
        let text = self.tr("Removing worktrees…", "Quitando worktrees…").to_string();
        self.begin(text, Effect::DetachTaskRepositories { task_id, detachment });
    }
}

// ---------------------------------------------------------------------------
// Laws
// ---------------------------------------------------------------------------
/// Exactly one source for a branch is marked, the chosen one, and the actions on
/// a branch that exists are offered only for the current one.
pub proof fn law_choices_marked(
    dialog: CreateTaskDialog,
    draft: TaskDraftOptions,
    language: Language,
    repositories: Seq<Repository>,
    at: int,
)
    requires
        dialog.shows(draft, language, repositories),
        0 <= at < repositories.len(),
    ensures
        dialog.sources@.len() == 3,
        dialog.sources@[0].selected <==> draft.branch_source == TaskBranchSource::Current,
        dialog.sources@[1].selected <==> draft.branch_source == TaskBranchSource::Local,
        dialog.sources@[2].selected <==> draft.branch_source == TaskBranchSource::Remote,
        draft.branch_source == TaskBranchSource::Current ==> dialog.actions@.len() == 2
            && dialog.actions@[0].selected == !dialog.actions@[1].selected
            && dialog.create_missing is None,
        draft.branch_source != TaskBranchSource::Current ==> dialog.actions@.len() == 0
            && dialog.create_missing == Some(draft.create_missing_branch),
        draft.branch_source == TaskBranchSource::Remote ==> dialog.replace_divergent == Some(
            draft.replace_divergent_local_branches,
        ),
        draft.branch_source != TaskBranchSource::Remote ==> dialog.replace_divergent is None,
        dialog.repositories@.len() == repositories.len(),
        dialog.repositories@[at].repository_id == repositories[at].id,
        dialog.repositories@[at].selected <==> draft.selected_repositories@.contains(
            repositories[at].id,
        ),
        dialog.repositories@[at].options is Some <==> dialog.repositories@[at].selected,
        dialog.results is Some <==> draft.availability is Some,
{
    let card = dialog.repositories@[at];
    assert(is_card(card, repositories[at], draft));
}

/// The repositories that can be added to a task are those of its project that it
/// does not have.
pub proof fn law_available(
    repositories: Seq<Repository>,
    attached: Seq<TaskRepository>,
    repository: Repository,
)
    ensures
        available_for(repositories, attached).contains(repository) <==> repositories.contains(
            repository,
        ) && (forall|i: int|
            0 <= i < attached.len() ==> (#[trigger] attached[i]).repository_id != repository.id),
{
    let keep = not_attached(attached);
    let wanted = task_repository_is(repository.id);
    let shown = repositories.filter(keep);
    lemma_first_where(attached, wanted, 0);
    if shown.contains(repository) {
        repositories.lemma_filter_contains_rev(keep, repository);
        let at = choose|at: int| 0 <= at < shown.len() && shown[at] == repository;
        repositories.lemma_filter_pred(keep, at);
        assert(forall|i: int|
            0 <= i < attached.len() ==> !wanted(#[trigger] attached[i]));
    }
    if repositories.contains(repository) && (forall|i: int|
        0 <= i < attached.len() ==> (#[trigger] attached[i]).repository_id != repository.id) {
        let at = choose|at: int| 0 <= at < repositories.len() && repositories[at] == repository;
        assert(keep(repository));
        repositories.lemma_filter_contains(keep, at);
    }
}

/// A dialog for a new task opens only while nothing else is under way, for the
/// selected project, and not where that has no repository.
pub proof fn law_task_asked_for(before: BlackholesApp, after: BlackholesApp, at: int)
    requires
        BlackholesApp::opens_create_task(before, after),
    ensures
        before.busy is Some || before.modals.task_submitting || before.modals.project_submitting
            || before.workspace_selected() is None ==> after == before,
        before.busy is None && !before.modals.task_submitting && !before.modals.project_submitting
            && before.workspace_selected() == Some(at) ==> {
            &&& before.workspaces@[at].repositories@.len() == 0 ==> after.modals == before.modals
                && (after.status matches Some(status) && status.error)
            &&& before.workspaces@[at].repositories@.len() > 0 && before.has_workspace_webview ==> (
            after.modals.task_request matches Some(request) && request.1
                == before.workspaces@[at].id && BlackholesApp::asked(before, after)[0] == (
            Effect::ShowModal {
                kind: ModalKind::CreateTask {
                    request_id: request.0,
                    workspace_id: before.workspaces@[at].id,
                },
            }) && BlackholesApp::asked(before, after)[1] == (Effect::ModalVisibility {
                visible: true,
            }))
            &&& before.workspaces@[at].repositories@.len() > 0 && !before.has_workspace_webview
                ==> BlackholesApp::asked(before, after) == seq![
                Effect::OpenDialog {
                    dialog: Dialog::CreateTask { workspace_id: before.workspaces@[at].id },
                },
            ]
        },
        after.tasks == before.tasks,
{
    if !before.is_occupied() && before.workspace_selected() == Some(at)
        && before.workspaces@[at].repositories@.len() > 0 && before.has_workspace_webview {
        let request_id = choose|request_id: Id| #[trigger]
            BlackholesApp::asks_for_task(before, after, before.workspaces@[at].id, request_id);
        assert(after.modals.task_request == Some((request_id, before.workspaces@[at].id)));
    }
    assert(BlackholesApp::asked(before, after) =~= after.effects@.subrange(
        before.effects@.len() as int,
        after.effects@.len() as int,
    ));
}

/// Repositories can be taken from a task that has more than one; one that has no
/// more than that keeps it, and the user is told.
pub proof fn law_last_repository_kept(
    before: BlackholesApp,
    after: BlackholesApp,
    task_id: Id,
    task: ProjectTask,
)
    requires
        BlackholesApp::offers_detachment(before, after, task_id, task),
    ensures
        task.repositories@.len() >= 2 ==> BlackholesApp::asked(before, after) == seq![
            Effect::OpenDialog { dialog: Dialog::RemoveTaskRepositories { task_id } },
        ],
        task.repositories@.len() <= 1 ==> (after.status matches Some(status) && status.error) && !(
        exists|i: int|
            before.effects@.len() <= i < after.effects@.len() && (
            #[trigger] after.effects@[i]) is OpenDialog),
        after.tasks == before.tasks,
{
    assert(BlackholesApp::asked(before, after) =~= after.effects@.subrange(
        before.effects@.len() as int,
        after.effects@.len() as int,
    ));
}

/// Repositories can be added to a task that has a branch and lacks one of the
/// project's; the user is told where there is none to add, as no error, and where
/// there is no branch, as one.
pub proof fn law_additions_offered(
    before: BlackholesApp,
    after: BlackholesApp,
    task_id: Id,
    task: ProjectTask,
    repositories: Seq<Repository>,
    at: int,
)
    requires
        BlackholesApp::offers_additions(before, after, task_id, task, repositories),
        0 <= at < repositories.len(),
        forall|i: int|
            0 <= i < task.repositories@.len() ==> (#[trigger] task.repositories@[i]).repository_id
                != repositories[at].id,
    ensures
        (task.branch matches Some(branch) && branch@.len() > 0) ==> BlackholesApp::asked(
            before,
            after,
        ) == seq![Effect::OpenDialog { dialog: Dialog::AddTaskRepositories { task_id } }],
        task.branch is None ==> (after.status matches Some(status) && status.error),
        after.tasks == before.tasks,
{
    law_available(repositories, task.repositories@, repositories[at]);
    assert(repositories.contains(repositories[at]));
    assert(BlackholesApp::asked(before, after) =~= after.effects@.subrange(
        before.effects@.len() as int,
        after.effects@.len() as int,
    ));
}

/// The dialog for removals lists every repository of the task in its order and
/// marks those that are chosen.
pub proof fn law_removals_listed(
    dialog: RemoveRepositoriesDialog,
    draft: DetachRepositoriesDraft,
    language: Language,
    repositories: Seq<Repository>,
    attached: Seq<TaskRepository>,
    at: int,
)
    requires
        dialog.shows(draft, language, repositories, attached),
        0 <= at < attached.len(),
    ensures
        dialog.repositories@.len() == attached.len(),
        dialog.repositories@[at].repository_id == attached[at].repository_id,
        dialog.repositories@[at].selected <==> draft.selected_repositories@.contains(
            attached[at].repository_id,
        ),
        draft.delete_branch ==> "●"@.is_prefix_of(dialog.delete_branch_line@),
        !draft.delete_branch ==> "○"@.is_prefix_of(dialog.delete_branch_line@),
        draft.discard_uncommitted_changes ==> "●"@.is_prefix_of(dialog.discard_line@),
        !draft.discard_uncommitted_changes ==> "○"@.is_prefix_of(dialog.discard_line@),
{
    let row = dialog.repositories@[at];
    assert(is_attached_row(row, repositories, attached[at], draft));
    let delete_mark = choice_mark(draft.delete_branch);
    let discard_mark = choice_mark(draft.discard_uncommitted_changes);
    assert(dialog.delete_branch_line@.subrange(0, delete_mark.len() as int) =~= delete_mark);
    assert(dialog.discard_line@.subrange(0, discard_mark.len() as int) =~= discard_mark);
}

} // verus!
