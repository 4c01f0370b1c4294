//! What the pages of the central surface show.
use std::collections::hash_map::DefaultHasher;
use std::hash::{Hash, Hasher};

use vstd::prelude::*;
use vstd::std_specs::hash::DefaultHasherAdditionalSpecFns;
use vstd::string::*;

use crate::accounts::{
    plan_detail, plan_name, project_terminal_skip_permissions, provider_plan_detail,
    provider_plan_name,
};
use crate::app::{
    AgentAuthStatus, AgentAuthentication, BlackholesApp, LegacyNote, PlanUsageWindow,
};
use crate::effects::AgentProvider;
use crate::ids::Id;
use crate::labels::{app_theme_id, language_code, language_id, theme_code};
use crate::model::{
    copy_text, find_repository, find_task, find_workspace, in_language, repository_at, task_at,
    text_of, tr, workspace_at, AgentKind, Language, ProjectTask, Repository, TerminalDescriptor,
};
use crate::navigation::task_of_project;
use crate::projects::{terminal_of_project, terminal_of_task};
use crate::search::{first_where, lemma_filter_step};
use crate::text::{decimal, decimal_text, join2, join3, join4};

verus! {

// ---------------------------------------------------------------------------
// Revisions of texts
// ---------------------------------------------------------------------------
/// What a hasher was given once a text is hashed with it.
pub uninterp spec fn text_hashed(given: Seq<Seq<u8>>, content: Seq<char>) -> Seq<Seq<u8>>;

/// Hashes a text: `<str as Hash>::hash`. What the hasher is given for a text
/// depends on the text and on what it was given before alone; which bytes those
/// are is left unsaid.
#[verifier::external_body]
fn hash_text(content: &str, hasher: &mut DefaultHasher)
    ensures
        final(hasher)@ == text_hashed(old(hasher)@, content@),
{
    content.hash(hasher);
}

/// The number by which a text is told from its other versions.
pub open spec fn revision_of(content: Seq<char>) -> u64 {
    DefaultHasher::spec_finish(text_hashed(Seq::empty(), content))
}

/// The number by which a text is told from its other versions.
pub fn content_revision(content: &str) -> (result: u64)
    ensures
        result == revision_of(content@),
{
    let mut hasher = DefaultHasher::new();
    hash_text(content, &mut hasher);
    hasher.finish()
}

// ---------------------------------------------------------------------------
// Settings
// ---------------------------------------------------------------------------
pub open spec fn auth_status_code(status: AgentAuthStatus) -> Seq<char> {
    match status {
        AgentAuthStatus::Connecting => "connecting"@,
        AgentAuthStatus::NeedsInput => "needs-input"@,
        AgentAuthStatus::Connected => "connected"@,
        AgentAuthStatus::Error => "error"@,
    }
}

pub fn auth_status_id(status: AgentAuthStatus) -> (result: &'static str)
    ensures
        result@ == auth_status_code(status),
{
    match status {
        AgentAuthStatus::Connecting => "connecting",
        AgentAuthStatus::NeedsInput => "needs-input",
        AgentAuthStatus::Connected => "connected",
        AgentAuthStatus::Error => "error",
    }
}

/// What is shown of a sign-in.
#[derive(Debug)]
pub struct AuthenticationView {
    pub status: &'static str,
    pub detail: String,
    pub opened_url: Option<String>,
}

/// How long a limit lasts, in words.
pub open spec fn window_duration(minutes: Option<u64>, language: Language) -> Seq<char> {
    match minutes {
        None => in_language(language, "Usage limit"@, "Límite de uso"@),
        Some(minutes) => if minutes == 10080 {
            in_language(language, "Weekly limit"@, "Límite semanal"@)
        } else if minutes % 60 == 0 {
            decimal((minutes / 60) as nat) + " h"@
        } else {
            decimal(minutes as nat) + " min"@
        },
    }
}

/// The heading of a limit.
pub open spec fn window_heading(window: PlanUsageWindow, language: Language) -> Seq<char> {
    if window.label@.len() == 0 {
        window_duration(window.minutes, language)
    } else {
        window.label@ + " · "@ + window_duration(window.minutes, language)
    }
}

/// The heading of a limit.
pub fn plan_window_label(window: &PlanUsageWindow, language: Language) -> (result: String)
    ensures
        result@ == window_heading(*window, language),
{
    let duration = match window.minutes {
        None => tr(language, "Usage limit", "Límite de uso").to_string(),
        Some(minutes) => {
            if minutes == 10080 {
                tr(language, "Weekly limit", "Límite semanal").to_string()
            } else if minutes % 60 == 0 {
                join2(decimal_text(minutes / 60).as_str(), " h")
            } else {
                join2(decimal_text(minutes).as_str(), " min")
            }
        },
    };
    if window.label.as_str().unicode_len() == 0 {
        duration
    } else {
        join3(window.label.as_str(), " · ", duration.as_str())
    }
}

/// When the limits were read, in words; `time` is the time in the local time zone.
pub fn usage_updated(time: &Option<String>, language: Language) -> (result: String)
    ensures
        result@ == match *time {
            Some(text) => in_language(language, "Last updated "@, "Actualizado el "@) + text@,
            None => in_language(
                language,
                "Account limits have not been refreshed yet."@,
                "Todavía no se actualizaron los límites de la cuenta."@,
            ),
        },
{
    match time {
        Some(text) => join2(tr(language, "Last updated ", "Actualizado el "), text.as_str()),
        None => tr(
            language,
            "Account limits have not been refreshed yet.",
            "Todavía no se actualizaron los límites de la cuenta.",
        ).to_string(),
    }
}

/// The page of the settings.
#[derive(Debug)]
pub struct SettingsSnapshot {
    pub language: &'static str,
    pub theme: &'static str,
    pub authentication: Option<AuthenticationView>,
    pub plan: String,
    pub plan_detail: &'static str,
    /// The headings of the limits, in the order the provider reports them.
    pub window_labels: Vec<String>,
    pub usage_refreshing: bool,
    pub usage_refresh_error: bool,
}

/// The sign-in that is shown: the one under way, where it is with the provider.
pub open spec fn shows_sign_in(
    view: Option<AuthenticationView>,
    authentication: Option<AgentAuthentication>,
    provider: AgentProvider,
) -> bool {
    match authentication {
        Some(flow) if flow.provider == provider => view matches Some(shown) && {
            &&& shown.status@ == auth_status_code(flow.status)
            &&& shown.detail@ == flow.detail@
            &&& text_of(shown.opened_url) == text_of(flow.opened_url)
        },
        _ => view is None,
    }
}

pub open spec fn shows_windows(labels: Seq<String>, windows: Seq<PlanUsageWindow>, language: Language) -> bool {
    &&& labels.len() == windows.len()
    &&& forall|i: int|
        0 <= i < labels.len() ==> (#[trigger] labels[i])@ == window_heading(windows[i], language)
}

impl BlackholesApp {
    /// The limits that are known of the account.
    pub open spec fn plan_windows(&self) -> Seq<PlanUsageWindow> {
        match self.plan_usage.active {
            Some(usage) => usage.windows@,
            None => Seq::empty(),
        }
    }

    /// The page shows the settings.
    pub open spec fn shows_settings_page(
        &self,
        provider: AgentProvider,
        display_name: Seq<char>,
        view: SettingsSnapshot,
    ) -> bool {
        let language = self.session.language;
        &&& view.language@ == language_code(language)
        &&& view.theme@ == theme_code(self.session.theme)
        &&& shows_sign_in(view.authentication, self.authentication, provider)
        &&& view.plan@ == plan_name(display_name, self.plan_usage.active, language)
        &&& view.plan_detail@ == plan_detail(self.plan_usage.active, language)
        &&& shows_windows(view.window_labels@, self.plan_windows(), language)
        &&& view.usage_refreshing == self.plan_usage.refreshing
        &&& view.usage_refresh_error == self.plan_usage.refresh_error
    }

    /// The page of the settings, for the provider that is chosen.
    pub fn hydrate_settings_surface(&self, provider: AgentProvider, display_name: &str) -> (result:
        SettingsSnapshot)
        ensures
            self.shows_settings_page(provider, display_name@, result),
    {
        let language = self.session.language;
        let mut authentication: Option<AuthenticationView> = None;
        if let Some(flow) = &self.authentication {
            if flow.provider == provider {
                authentication =
                Some(
                    AuthenticationView {
                        status: auth_status_id(flow.status),
                        detail: flow.detail.clone(),
                        opened_url: copy_text(&flow.opened_url),
                    },
                );
            }
        }
        let mut window_labels: Vec<String> = Vec::new();
        if let Some(usage) = &self.plan_usage.active {
            let mut index: usize = 0;
            while index < usage.windows.len()
                invariant
                    index <= usage.windows@.len(),
                    window_labels@.len() == index,
                    forall|i: int|
                        0 <= i < index ==> (#[trigger] window_labels@[i])@ == window_heading(
                            usage.windows@[i],
                            language,
                        ),
                decreases usage.windows@.len() - index,
            {
                window_labels.push(plan_window_label(&usage.windows[index], language));
                index += 1;
            }
        }
        SettingsSnapshot {
            language: language_id(language),
            theme: app_theme_id(self.session.theme),
            authentication,
            plan: provider_plan_name(display_name, &self.plan_usage.active, language),
            plan_detail: provider_plan_detail(&self.plan_usage.active, language),
            window_labels,
            usage_refreshing: self.plan_usage.refreshing,
            usage_refresh_error: self.plan_usage.refresh_error,
        }
    }
}

// ---------------------------------------------------------------------------
// The settings of a project
// ---------------------------------------------------------------------------
/// The page of the settings of a project.
#[derive(Debug)]
pub struct ProjectSettingsSnapshot {
    pub language: &'static str,
    pub theme: &'static str,
    pub workspace_id: Id,
    pub title: String,
    pub terminal_skip_permissions: bool,
    pub project_revision: u64,
    pub project_instructions: String,
    pub task_revision: u64,
    pub task_instructions: String,
    pub error: Option<String>,
}

/// A text that was read; empty where it could not be.
pub open spec fn text_read(read: Result<String, String>) -> Seq<char> {
    match read {
        Ok(text) => text@,
        Err(_) => ""@,
    }
}

/// What is told where the instructions could not be read.
pub open spec fn reading_errors(
    file: Seq<char>,
    project: Result<String, String>,
    task: Result<String, String>,
) -> Option<Seq<char>> {
    let own = "Could not read the project "@ + file + ": "@;
    let shared = "Could not read the shared task "@ + file + ": "@;
    match (project, task) {
        (Ok(_), Ok(_)) => None,
        (Err(error), Ok(_)) => Some(own + error@),
        (Ok(_), Err(error)) => Some(shared + error@),
        (Err(first), Err(second)) => Some(own + first@ + "\n"@ + (shared + second@)),
    }
}

impl BlackholesApp {
    /// The page shows the settings of a project.
    pub open spec fn shows_project_settings(
        &self,
        at: int,
        project: Result<String, String>,
        task: Result<String, String>,
        skip_permissions: Option<String>,
        view: ProjectSettingsSnapshot,
    ) -> bool {
        let workspace = self.workspaces@[at];
        &&& view.language@ == language_code(self.session.language)
        &&& view.theme@ == theme_code(self.session.theme)
        &&& view.workspace_id == workspace.id
        &&& view.title@ == workspace.label@
        &&& view.terminal_skip_permissions == (skip_permissions matches Some(value) && value@
            == "true"@)
        &&& view.project_instructions@ == text_read(project)
        &&& view.project_revision == revision_of(text_read(project))
        &&& view.task_instructions@ == text_read(task)
        &&& view.task_revision == revision_of(text_read(task))
        &&& text_of(view.error) == reading_errors(
            self.agent_labels.instructions_file@,
            project,
            task,
        )
    }

    /// The page of the settings of a project; nothing where it is unknown.
    /// `project` and `task` are the instructions that were read, `skip_permissions`
    /// is the setting of the project.
    pub fn hydrate_project_settings_surface(
        &self,
        workspace_id: Id,
        project: Result<String, String>,
        task: Result<String, String>,
        skip_permissions: &Option<String>,
    ) -> (result: Option<ProjectSettingsSnapshot>)
        ensures
            match workspace_at(self.workspaces@, workspace_id) {
                None => result is None,
                Some(at) => result matches Some(view) && self.shows_project_settings(
                    at,
                    project,
                    task,
                    *skip_permissions,
                    view,
                ),
            },
    {
        let at: usize = match find_workspace(&self.workspaces, workspace_id) {
            Some(at) => at,
            None => {
                return None;
            },
        };
        let file = self.agent_labels.instructions_file.as_str();
        let mut first: Option<String> = None;
        let mut second: Option<String> = None;
        let project_instructions: String = match project {
            Ok(text) => text,
            Err(error) => {
                first =
                Some(join4("Could not read the project ", file, ": ", error.as_str()));
                "".to_string()
            },
        };
        let task_instructions: String = match task {
            Ok(text) => text,
            Err(error) => {
                second =
                Some(join4("Could not read the shared task ", file, ": ", error.as_str()));
                "".to_string()
            },
        };
        let error: Option<String> = match first {
            None => second,
            Some(one) => match second {
                None => Some(one),
                Some(other) => Some(join3(one.as_str(), "\n", other.as_str())),
            },
        };
        Some(
            ProjectSettingsSnapshot {
                language: language_id(self.session.language),
                theme: app_theme_id(self.session.theme),
                workspace_id: self.workspaces[at].id,
                title: self.workspaces[at].label.clone(),
                terminal_skip_permissions: project_terminal_skip_permissions(skip_permissions),
                project_revision: content_revision(project_instructions.as_str()),
                project_instructions,
                task_revision: content_revision(task_instructions.as_str()),
                task_instructions,
                error,
            },
        )
    }
}

// ---------------------------------------------------------------------------
// Details of a task, overview of a project
// ---------------------------------------------------------------------------
/// A terminal on a page.
#[derive(Debug)]
pub struct TerminalEntry {
    pub id: Id,
    pub label: String,
    pub agent: AgentKind,
}

/// The terminals of a list that a page shows.
pub open spec fn lists_terminals(
    entries: Seq<TerminalEntry>,
    terminals: Seq<TerminalDescriptor>,
    keep: spec_fn(TerminalDescriptor) -> bool,
) -> bool {
    let shown = terminals.filter(keep);
    &&& entries.len() == shown.len()
    &&& forall|i: int|
        0 <= i < entries.len() ==> (#[trigger] entries[i]).id == shown[i].id && entries[i].label@
            == shown[i].label@ && entries[i].agent == shown[i].agent
}

fn list_terminals<F: Fn(&TerminalDescriptor) -> bool>(
    terminals: &Vec<TerminalDescriptor>,
    Ghost(keep): Ghost<spec_fn(TerminalDescriptor) -> bool>,
    test: F,
) -> (result: Vec<TerminalEntry>)
    requires
        forall|item: &TerminalDescriptor| #[trigger] test.requires((item,)),
        forall|item: &TerminalDescriptor, kept: bool| #[trigger]
            test.ensures((item,), kept) ==> kept == keep(*item),
    ensures
        lists_terminals(result@, terminals@, keep),
{
    let mut result: Vec<TerminalEntry> = Vec::new();
    let mut index: usize = 0;
    assert(terminals@.take(0).filter(keep) =~= Seq::<TerminalDescriptor>::empty());
    while index < terminals.len()
        invariant
            forall|item: &TerminalDescriptor| #[trigger] test.requires((item,)),
            forall|item: &TerminalDescriptor, kept: bool| #[trigger]
                test.ensures((item,), kept) ==> kept == keep(*item),
            index <= terminals@.len(),
            lists_terminals(result@, terminals@.take(index as int), keep),
        decreases terminals@.len() - index,
    {
        proof {
            lemma_filter_step(terminals@, keep, index as int);
        }
        let terminal = &terminals[index];
        if test(terminal) {
            result.push(
                TerminalEntry {
                    id: terminal.id,
                    label: terminal.label.clone(),
                    agent: terminal.agent,
                },
            );
        }
        index += 1;
    }
    assert(terminals@.take(index as int) =~= terminals@);
    result
}

/// A repository of a task on its page.
#[derive(Debug)]
pub struct TaskRepositoryEntry {
    pub id: Id,
    pub branch: String,
    pub name: Option<String>,
}

/// The page of a task.
#[derive(Debug)]
pub struct TaskDetailsSnapshot {
    pub language: &'static str,
    pub theme: &'static str,
    pub id: Id,
    pub workspace_id: Id,
    pub project: Option<String>,
    pub legacy_note: Option<String>,
    pub repositories: Vec<TaskRepositoryEntry>,
    pub terminals: Vec<TerminalEntry>,
}

pub open spec fn note_is(task_id: Id) -> spec_fn(LegacyNote) -> bool {
    |note: LegacyNote| note.task_id == task_id
}

/// The note of a task from before its details were kept.
pub open spec fn note_of(notes: Seq<LegacyNote>, task_id: Id) -> Option<Seq<char>> {
    match first_where(notes, note_is(task_id), 0) {
        Some(at) => Some(notes[at].text@),
        None => None,
    }
}

impl BlackholesApp {
    /// The name of a repository of a project.
    pub open spec fn repository_name_in(&self, project: Option<int>, repository_id: Id) -> Option<Seq<char>> {
        match project {
            Some(at) => match repository_at(self.workspaces@[at].repositories@, repository_id) {
                Some(place) => Some(self.workspaces@[at].repositories@[place].name@),
                None => None,
            },
            None => None,
        }
    }

    /// The page shows a task.
    pub open spec fn shows_task_page(&self, at: int, view: TaskDetailsSnapshot) -> bool {
        let task = self.tasks@[at];
        let project = workspace_at(self.workspaces@, task.workspace_id);
        &&& view.language@ == language_code(self.session.language)
        &&& view.theme@ == theme_code(self.session.theme)
        &&& view.id == task.id
        &&& view.workspace_id == task.workspace_id
        &&& text_of(view.project) == match project {
            Some(place) => Some(self.workspaces@[place].label@),
            None => None,
        }
        &&& text_of(view.legacy_note) == note_of(self.task_legacy_notes@, task.id)
        &&& view.repositories@.len() == task.repositories@.len()
        &&& forall|i: int|
            0 <= i < view.repositories@.len() ==> {
                let attached = task.repositories@[i];
                &&& (#[trigger] view.repositories@[i]).id == attached.repository_id
                &&& view.repositories@[i].branch@ == attached.branch@
                &&& text_of(view.repositories@[i].name) == self.repository_name_in(
                    project,
                    attached.repository_id,
                )
            }
        &&& lists_terminals(
            view.terminals@,
            self.session.terminals@,
            terminal_of_task(task.id),
        )
    }

    fn find_note(&self, task_id: Id) -> (result: Option<String>)
        ensures
            text_of(result) == note_of(self.task_legacy_notes@, task_id),
    {
        let ghost notes = self.task_legacy_notes@;
        let ghost test = note_is(task_id);
        let mut index: usize = 0;
        while index < self.task_legacy_notes.len()
            invariant
                notes == self.task_legacy_notes@,
                test == note_is(task_id),
                index <= notes.len(),
                first_where(notes, test, 0) == first_where(notes, test, index as int),
            decreases notes.len() - index,
        {
            if self.task_legacy_notes[index].task_id == task_id {
                return Some(self.task_legacy_notes[index].text.clone());
            }
            index += 1;
        }
        None
    }

    /// The page of a task; nothing where it is unknown.
    pub fn hydrate_task_details_surface(&self, task_id: Id) -> (result: Option<TaskDetailsSnapshot>)
        ensures
            match task_at(self.tasks@, task_id) {
                None => result is None,
                Some(at) => result matches Some(view) && self.shows_task_page(at, view),
            },
    {
        let at: usize = match find_task(&self.tasks, task_id) {
            Some(at) => at,
            None => {
                return None;
            },
        };
        let task = &self.tasks[at];
        let found = find_workspace(&self.workspaces, task.workspace_id);
        let ghost project = workspace_at(self.workspaces@, task.workspace_id);
        let mut repositories: Vec<TaskRepositoryEntry> = Vec::new();
        let mut index: usize = 0;
        while index < task.repositories.len()
            invariant
                crate::search::position(found) == project,
                found matches Some(place) ==> place < self.workspaces@.len(),
                index <= task.repositories@.len(),
                repositories@.len() == index,
                forall|i: int|
                    0 <= i < index ==> {
                        let attached = task.repositories@[i];
                        &&& (#[trigger] repositories@[i]).id == attached.repository_id
                        &&& repositories@[i].branch@ == attached.branch@
                        &&& text_of(repositories@[i].name) == self.repository_name_in(
                            project,
                            attached.repository_id,
                        )
                    },
            decreases task.repositories@.len() - index,
        {
            let attached = &task.repositories[index];
            let name: Option<String> = match found {
                Some(place) => match find_repository(
                    &self.workspaces[place].repositories,
                    attached.repository_id,
                ) {
                    Some(inner) => Some(self.workspaces[place].repositories[inner].name.clone()),
                    None => None,
                },
                None => None,
            };
            repositories.push(
                TaskRepositoryEntry {
                    id: attached.repository_id,
                    branch: attached.branch.clone(),
                    name,
                },
            );
            index += 1;
        }
        let test = |terminal: &TerminalDescriptor| -> (kept: bool)
            ensures
                kept == (terminal.task_id == Some(task_id)),
        { terminal.task_id == Some(task_id) };
        let terminals = list_terminals(
            &self.session.terminals,
            Ghost(terminal_of_task(task_id)),
            test,
        );
        Some(
            TaskDetailsSnapshot {
                language: language_id(self.session.language),
                theme: app_theme_id(self.session.theme),
                id: task.id,
                workspace_id: task.workspace_id,
                project: match found {
                    Some(place) => Some(self.workspaces[place].label.clone()),
                    None => None,
                },
                legacy_note: self.find_note(task_id),
                repositories,
                terminals,
            },
        )
    }
}

/// A record with a name on a page.
#[derive(Debug)]
pub struct NamedEntry {
    pub id: Id,
    pub name: String,
}

/// The page of a project.
#[derive(Debug)]
pub struct ProjectOverviewSnapshot {
    pub language: &'static str,
    pub theme: &'static str,
    pub id: Id,
    pub title: String,
    pub terminals: Vec<TerminalEntry>,
    pub tasks: Vec<NamedEntry>,
    pub repositories: Vec<NamedEntry>,
}

pub open spec fn lists_tasks(entries: Seq<NamedEntry>, tasks: Seq<ProjectTask>) -> bool {
    &&& entries.len() == tasks.len()
    &&& forall|i: int|
        0 <= i < entries.len() ==> (#[trigger] entries[i]).id == tasks[i].id && entries[i].name@
            == tasks[i].title@
}

pub open spec fn lists_repositories(entries: Seq<NamedEntry>, repositories: Seq<Repository>) -> bool {
    &&& entries.len() == repositories.len()
    &&& forall|i: int|
        0 <= i < entries.len() ==> (#[trigger] entries[i]).id == repositories[i].id
            && entries[i].name@ == repositories[i].name@
}

impl BlackholesApp {
    /// The page shows a project.
    pub open spec fn shows_project_page(&self, at: int, view: ProjectOverviewSnapshot) -> bool {
        let workspace = self.workspaces@[at];
        &&& view.language@ == language_code(self.session.language)
        &&& view.theme@ == theme_code(self.session.theme)
        &&& view.id == workspace.id
        &&& view.title@ == workspace.label@
        &&& lists_terminals(
            view.terminals@,
            self.session.terminals@,
            terminal_of_project(workspace.id),
        )
        &&& lists_tasks(view.tasks@, self.tasks@.filter(task_of_project(workspace.id)))
        &&& lists_repositories(view.repositories@, workspace.repositories@)
    }

    /// The page of a project; nothing where it is unknown.
    pub fn hydrate_project_overview_surface(&self, workspace_id: Id) -> (result: Option<
        ProjectOverviewSnapshot,
    >)
        ensures
            match workspace_at(self.workspaces@, workspace_id) {
                None => result is None,
                Some(at) => result matches Some(view) && self.shows_project_page(at, view),
            },
    {
        let at: usize = match find_workspace(&self.workspaces, workspace_id) {
            Some(at) => at,
            None => {
                return None;
            },
        };
        let workspace = &self.workspaces[at];
        let test = |terminal: &TerminalDescriptor| -> (kept: bool)
            ensures
                kept == (terminal.workspace_id == workspace_id),
        { terminal.workspace_id == workspace_id };
        let terminals = list_terminals(
            &self.session.terminals,
            Ghost(terminal_of_project(workspace_id)),
            test,
        );
        let ghost keep = task_of_project(workspace_id);
        let mut tasks: Vec<NamedEntry> = Vec::new();
        let mut index: usize = 0;
        assert(self.tasks@.take(0).filter(keep) =~= Seq::<ProjectTask>::empty());
        while index < self.tasks.len()
            invariant
                keep == task_of_project(workspace_id),
                index <= self.tasks@.len(),
                lists_tasks(tasks@, self.tasks@.take(index as int).filter(keep)),
            decreases self.tasks@.len() - index,
        {
            proof {
                lemma_filter_step(self.tasks@, keep, index as int);
            }
            if self.tasks[index].workspace_id == workspace_id {
                tasks.push(
                    NamedEntry { id: self.tasks[index].id, name: self.tasks[index].title.clone() },
                );
            }
            index += 1;
        }
        assert(self.tasks@.take(index as int) =~= self.tasks@);
        let mut repositories: Vec<NamedEntry> = Vec::new();
        let mut place: usize = 0;
        while place < workspace.repositories.len()
            invariant
                place <= workspace.repositories@.len(),
                lists_repositories(
                    repositories@,
                    workspace.repositories@.take(place as int),
                ),
            decreases workspace.repositories@.len() - place,
        {
            repositories.push(
                NamedEntry {
                    id: workspace.repositories[place].id,
                    name: workspace.repositories[place].name.clone(),
                },
            );
            place += 1;
        }
        assert(workspace.repositories@.take(place as int) =~= workspace.repositories@);
        Some(
            ProjectOverviewSnapshot {
                language: language_id(self.session.language),
                theme: app_theme_id(self.session.theme),
                id: workspace_id,
                title: workspace.label.clone(),
                terminals,
                tasks,
                repositories,
            },
        )
    }
}

// ---------------------------------------------------------------------------
// Status and home
// ---------------------------------------------------------------------------
/// The status message.
#[derive(Debug)]
pub struct StatusSnapshot {
    pub message: Option<String>,
    pub error: bool,
}

/// The page that is shown when nothing else is.
#[derive(Debug)]
pub struct HomeSnapshot {
    pub language: &'static str,
    pub theme: &'static str,
    pub title: &'static str,
    pub description: &'static str,
}

impl BlackholesApp {
    /// The status message.
    pub fn hydrate_workspace_status(&self) -> (result: StatusSnapshot)
        ensures
            match self.status {
                Some(status) => result.message matches Some(message) && message@ == status.message@
                    && result.error == status.error,
                None => result.message is None && !result.error,
            },
    {
        match &self.status {
            Some(status) => StatusSnapshot {
                message: Some(status.message.clone()),
                error: status.error,
            },
            None => StatusSnapshot { message: None, error: false },
        }
    }

    /// The page that is shown when nothing else is.
    pub fn hydrate_home_surface(&self) -> (result: HomeSnapshot)
        ensures
            result.language@ == language_code(self.session.language),
            result.theme@ == theme_code(self.session.theme),
            result.title@ == self.text(
                "Your agent workspace"@,
                "Tu espacio de trabajo para agentes"@,
            ),
            result.description@ == self.text(
                "Open a project or task and use its + menu to start a terminal or coding agent."@,
                "Abre un proyecto o una tarea y usa su menú + para iniciar una terminal o un agente de código."@,
            ),
    {
        HomeSnapshot {
            language: language_id(self.session.language),
            theme: app_theme_id(self.session.theme),
            title: self.tr("Your agent workspace", "Tu espacio de trabajo para agentes"),
            description: self.tr(
                "Open a project or task and use its + menu to start a terminal or coding agent.",
                "Abre un proyecto o una tarea y usa su menú + para iniciar una terminal o un agente de código.",
            ),
        }
    }
}

// ---------------------------------------------------------------------------
// The texts of the navigation
// ---------------------------------------------------------------------------
/// The texts of the tree of projects.
#[derive(Debug)]
pub struct NavigationCopy {
    pub projects: &'static str,
    pub project: &'static str,
    pub settings: &'static str,
    pub working: &'static str,
    pub terminal: &'static str,
    pub blank_terminal: &'static str,
    pub tasks: &'static str,
    pub task: &'static str,
    pub new: &'static str,
    pub toggle: &'static str,
    pub options: &'static str,
    pub close_terminal: &'static str,
    pub new_terminal: &'static str,
    pub new_task: &'static str,
    pub refresh_project: &'static str,
    pub add_to_project: &'static str,
    pub add_repository: &'static str,
    pub remove_repository: &'static str,
    pub edit_project: &'static str,
    pub project_settings: &'static str,
    pub remove_project: &'static str,
    pub edit_task: &'static str,
    pub remove_task: &'static str,
}

impl NavigationCopy {
    /// The texts are those of the language.
    pub open spec fn is_in(&self, language: Language) -> bool {
        &&& self.projects@ == in_language(language, "Projects"@, "Proyectos"@)
        &&& self.project@ == in_language(language, "Project"@, "Proyecto"@)
        &&& self.settings@ == in_language(language, "Settings"@, "Configuración"@)
        &&& self.working@ == in_language(language, "Working"@, "Trabajando"@)
        &&& self.terminal@ == "Terminal"@
        &&& self.blank_terminal@ == in_language(language, "Blank Terminal"@, "Terminal vacía"@)
        &&& self.tasks@ == in_language(language, "Tasks"@, "Tareas"@)
        &&& self.task@ == in_language(language, "Task"@, "Tarea"@)
        &&& self.new@ == in_language(language, "New"@, "Nuevo"@)
        &&& self.toggle@ == in_language(language, "Expand or collapse"@, "Expandir o contraer"@)
        &&& self.options@ == in_language(language, "Options"@, "Opciones"@)
        &&& self.close_terminal@ == in_language(language, "Close terminal"@, "Cerrar terminal"@)
        &&& self.new_terminal@ == in_language(language, "New terminal"@, "Nueva terminal"@)
        &&& self.new_task@ == in_language(language, "Add task"@, "Agregar tarea"@)
        &&& self.refresh_project@ == in_language(
            language,
            "Find new repositories"@,
            "Buscar repositorios nuevos"@,
        )
        &&& self.add_to_project@ == in_language(language, "Add to project"@, "Agregar al proyecto"@)
        &&& self.add_repository@ == in_language(
            language,
            "Add repository…"@,
            "Agregar repositorio…"@,
        )
        &&& self.remove_repository@ == in_language(
            language,
            "Remove repository"@,
            "Eliminar repositorio"@,
        )
        &&& self.edit_project@ == in_language(language, "Edit project"@, "Editar proyecto"@)
        &&& self.project_settings@ == in_language(
            language,
            "Project settings"@,
            "Configuración del proyecto"@,
        )
        &&& self.remove_project@ == in_language(language, "Remove project"@, "Eliminar proyecto"@)
        &&& self.edit_task@ == in_language(language, "Edit task"@, "Editar tarea"@)
        &&& self.remove_task@ == in_language(language, "Delete task"@, "Eliminar tarea"@)
    }

    /// The texts of a language.
    pub fn of(language: Language) -> (result: Self)
        ensures
            result.is_in(language),
    {
        NavigationCopy {
            projects: tr(language, "Projects", "Proyectos"),
            project: tr(language, "Project", "Proyecto"),
            settings: tr(language, "Settings", "Configuración"),
            working: tr(language, "Working", "Trabajando"),
            terminal: "Terminal",
            blank_terminal: tr(language, "Blank Terminal", "Terminal vacía"),
            tasks: tr(language, "Tasks", "Tareas"),
            task: tr(language, "Task", "Tarea"),
            new: tr(language, "New", "Nuevo"),
            toggle: tr(language, "Expand or collapse", "Expandir o contraer"),
            options: tr(language, "Options", "Opciones"),
            close_terminal: tr(language, "Close terminal", "Cerrar terminal"),
            new_terminal: tr(language, "New terminal", "Nueva terminal"),
            new_task: tr(language, "Add task", "Agregar tarea"),
            refresh_project: tr(language, "Find new repositories", "Buscar repositorios nuevos"),
            add_to_project: tr(language, "Add to project", "Agregar al proyecto"),
            add_repository: tr(language, "Add repository…", "Agregar repositorio…"),
            remove_repository: tr(language, "Remove repository", "Eliminar repositorio"),
            edit_project: tr(language, "Edit project", "Editar proyecto"),
            project_settings: tr(language, "Project settings", "Configuración del proyecto"),
            remove_project: tr(language, "Remove project", "Eliminar proyecto"),
            edit_task: tr(language, "Edit task", "Editar tarea"),
            remove_task: tr(language, "Delete task", "Eliminar tarea"),
        }
    }
}

// ---------------------------------------------------------------------------
// Laws
// ---------------------------------------------------------------------------
/// The page of a task lists its repositories in their order, each with the branch
/// it is on, and the terminals of the task and of no other.
pub proof fn law_task_page(app: BlackholesApp, at: int, view: TaskDetailsSnapshot, terminal: int)
    requires
        app.shows_task_page(at, view),
        0 <= at < app.tasks@.len(),
    ensures
        view.id == app.tasks@[at].id,
        view.workspace_id == app.tasks@[at].workspace_id,
        view.repositories@.len() == app.tasks@[at].repositories@.len(),
        forall|i: int|
            0 <= i < view.repositories@.len() ==> (#[trigger] view.repositories@[i]).id
                == app.tasks@[at].repositories@[i].repository_id && view.repositories@[i].branch@
                == app.tasks@[at].repositories@[i].branch@,
        0 <= terminal < app.session.terminals@.len() && app.session.terminals@[terminal].task_id
            == Some(app.tasks@[at].id) ==> exists|k: int|
            0 <= k < view.terminals@.len() && (#[trigger] view.terminals@[k]).id
                == app.session.terminals@[terminal].id && view.terminals@[k].label@
                == app.session.terminals@[terminal].label@,
        forall|k: int|
            0 <= k < view.terminals@.len() ==> exists|i: int|
                0 <= i < app.session.terminals@.len() && (
                #[trigger] app.session.terminals@[i]).task_id == Some(app.tasks@[at].id)
                    && app.session.terminals@[i].id == (#[trigger] view.terminals@[k]).id,
{
    lemma_terminals_listed(
        view.terminals@,
        app.session.terminals@,
        terminal_of_task(app.tasks@[at].id),
        terminal,
    );
}

proof fn lemma_terminals_listed(
    entries: Seq<TerminalEntry>,
    terminals: Seq<TerminalDescriptor>,
    keep: spec_fn(TerminalDescriptor) -> bool,
    terminal: int,
)
    requires
        lists_terminals(entries, terminals, keep),
    ensures
        0 <= terminal < terminals.len() && keep(terminals[terminal]) ==> exists|k: int|
            0 <= k < entries.len() && (#[trigger] entries[k]).id == terminals[terminal].id
                && entries[k].label@ == terminals[terminal].label@,
        forall|k: int|
            0 <= k < entries.len() ==> exists|i: int|
                0 <= i < terminals.len() && keep(#[trigger] terminals[i]) && terminals[i].id == (
                #[trigger] entries[k]).id,
{
    let shown = terminals.filter(keep);
    if 0 <= terminal < terminals.len() && keep(terminals[terminal]) {
        terminals.lemma_filter_contains(keep, terminal);
        let k = choose|k: int| 0 <= k < shown.len() && shown[k] == terminals[terminal];
        assert(entries[k].id == terminals[terminal].id);
    }
    assert forall|k: int| 0 <= k < entries.len() implies exists|i: int|
        0 <= i < terminals.len() && keep(#[trigger] terminals[i]) && terminals[i].id == (
        #[trigger] entries[k]).id by {
        terminals.lemma_filter_pred(keep, k);
        terminals.lemma_filter_contains_rev(keep, shown[k]);
        let i = choose|i: int| 0 <= i < terminals.len() && terminals[i] == shown[k];
        assert(keep(terminals[i]));
    }
}

/// The page of a project lists every repository of it in its order, every task of
/// it and no task of another, and every terminal in it.
pub proof fn law_project_page(
    app: BlackholesApp,
    at: int,
    view: ProjectOverviewSnapshot,
    task: int,
    terminal: int,
)
    requires
        app.shows_project_page(at, view),
        0 <= at < app.workspaces@.len(),
    ensures
        view.id == app.workspaces@[at].id,
        view.title@ == app.workspaces@[at].label@,
        view.repositories@.len() == app.workspaces@[at].repositories@.len(),
        forall|i: int|
            0 <= i < view.repositories@.len() ==> (#[trigger] view.repositories@[i]).id
                == app.workspaces@[at].repositories@[i].id && view.repositories@[i].name@
                == app.workspaces@[at].repositories@[i].name@,
        0 <= task < app.tasks@.len() && app.tasks@[task].workspace_id == app.workspaces@[at].id
            ==> exists|k: int|
            0 <= k < view.tasks@.len() && (#[trigger] view.tasks@[k]).id == app.tasks@[task].id
                && view.tasks@[k].name@ == app.tasks@[task].title@,
        forall|k: int|
            0 <= k < view.tasks@.len() ==> exists|i: int|
                0 <= i < app.tasks@.len() && (#[trigger] app.tasks@[i]).workspace_id
                    == app.workspaces@[at].id && app.tasks@[i].id == (
                #[trigger] view.tasks@[k]).id,
        0 <= terminal < app.session.terminals@.len()
            && app.session.terminals@[terminal].workspace_id == app.workspaces@[at].id ==> exists|
            k: int,
        |
            0 <= k < view.terminals@.len() && (#[trigger] view.terminals@[k]).id
                == app.session.terminals@[terminal].id,
{
    let id = app.workspaces@[at].id;
    lemma_terminals_listed(
        view.terminals@,
        app.session.terminals@,
        terminal_of_project(id),
        terminal,
    );
    let keep = task_of_project(id);
    let shown = app.tasks@.filter(keep);
    if 0 <= task < app.tasks@.len() && app.tasks@[task].workspace_id == id {
        assert(keep(app.tasks@[task]));
        app.tasks@.lemma_filter_contains(keep, task);
        let k = choose|k: int| 0 <= k < shown.len() && shown[k] == app.tasks@[task];
        assert(view.tasks@[k].id == app.tasks@[task].id);
    }
    assert forall|k: int| 0 <= k < view.tasks@.len() implies exists|i: int|
        0 <= i < app.tasks@.len() && (#[trigger] app.tasks@[i]).workspace_id == id
            && app.tasks@[i].id == (#[trigger] view.tasks@[k]).id by {
        app.tasks@.lemma_filter_pred(keep, k);
        app.tasks@.lemma_filter_contains_rev(keep, shown[k]);
        let i = choose|i: int| 0 <= i < app.tasks@.len() && app.tasks@[i] == shown[k];
        assert(app.tasks@[i].workspace_id == id);
    }
}

/// The settings of a project show its instructions as they were read, the setting
/// as on only where it was stored so, and every failure to read, each on a line.
pub proof fn law_project_settings_page(
    app: BlackholesApp,
    at: int,
    project: Result<String, String>,
    task: Result<String, String>,
    skip_permissions: Option<String>,
    view: ProjectSettingsSnapshot,
)
    requires
        app.shows_project_settings(at, project, task, skip_permissions, view),
    ensures
        view.workspace_id == app.workspaces@[at].id,
        skip_permissions is None ==> !view.terminal_skip_permissions,
        skip_permissions matches Some(value) ==> (view.terminal_skip_permissions <==> value@
            == "true"@),
        project matches Ok(text) ==> view.project_instructions@ == text@,
        task matches Ok(text) ==> view.task_instructions@ == text@,
        project is Ok && task is Ok <==> view.error is None,
        project is Ok && task is Ok && project->Ok_0@ == task->Ok_0@ ==> view.project_revision
            == view.task_revision,
        (project matches Err(error) && task is Ok) ==> (view.error matches Some(shown) && shown@
            == "Could not read the project "@ + app.agent_labels.instructions_file@ + ": "@
            + project->Err_0@),
        (task matches Err(error) && project is Ok) ==> (view.error matches Some(shown) && shown@
            == "Could not read the shared task "@ + app.agent_labels.instructions_file@ + ": "@
            + task->Err_0@),
{
}

/// A limit is headed by how long it lasts: a week by name, whole hours in hours,
/// the rest in minutes, after the label that it has, if any.
pub proof fn law_limit_headed(window: PlanUsageWindow, hours: u64)
    ensures
        window.label@.len() == 0 && window.minutes == Some(10080u64) ==> window_heading(
            window,
            Language::English,
        ) == "Weekly limit"@,
        window.label@.len() == 0 && (window.minutes matches Some(minutes) && minutes == hours * 60)
            && hours != 168 ==> window_heading(window, Language::English) == decimal(hours as nat)
            + " h"@,
        window.label@.len() == 0 && (window.minutes matches Some(minutes) && minutes % 60 != 0)
            ==> window_heading(window, Language::English) == decimal(window.minutes->0 as nat)
            + " min"@,
        window.label@.len() == 0 && window.minutes is None ==> window_heading(
            window,
            Language::English,
        ) == "Usage limit"@,
        window.label@.len() > 0 ==> window.label@.is_prefix_of(
            window_heading(window, Language::English),
        ),
{
    if window.label@.len() > 0 {
        let heading = window_heading(window, Language::English);
        assert(heading.subrange(0, window.label@.len() as int) =~= window.label@);
    }
    if let Some(minutes) = window.minutes {
        if minutes == hours * 60 {
            assert(minutes % 60 == 0 && minutes / 60 == hours) by (nonlinear_arith)
                requires
                    minutes == hours * 60,
            ;
        }
    }
}

/// The settings show the sign-in that is under way with the chosen provider, and
/// none that is with another.
pub proof fn law_sign_in_shown(
    app: BlackholesApp,
    provider: AgentProvider,
    display_name: Seq<char>,
    view: SettingsSnapshot,
)
    requires
        app.shows_settings_page(provider, display_name, view),
    ensures
        view.authentication is Some <==> (app.authentication matches Some(flow) && flow.provider
            == provider),
        (app.authentication matches Some(flow) && flow.provider == provider) ==> (
        view.authentication matches Some(shown) && shown.detail@
            == app.authentication->0.detail@),
        app.plan_usage.active is None ==> view.window_labels@.len() == 0,
        app.plan_usage.active matches Some(usage) ==> view.window_labels@.len()
            == usage.windows@.len(),
        view.usage_refreshing == app.plan_usage.refreshing,
{
}

} // verus!
