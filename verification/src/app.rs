//! The state of the application.
use vstd::prelude::*;
use vstd::string::*;

use crate::clock::Time;
use crate::collections::{PathMap, PathSet};
use crate::dock::{front_terminal, terminal_in_front, DockEntry, DockKey};
use crate::effects::{AgentProvider, Effect, FileDocumentSource, SurfaceTarget};
use crate::history::{Comparison, SourceControl};
use crate::ids::Id;
use crate::labels::{AppIcon, FileEntryKind, NoteSaveState, RepositoryChangeKind};
use crate::model::{
    find_task, find_workspace, in_language, task_at, workspace_at, AgentKind, AppTheme, Language,
    ProjectTask, TerminalDescriptor, Workspace,
};
use crate::text::same_text;

verus! {

/// What the user left when the application closed and finds again.
#[derive(Debug)]
pub struct AppSession {
    pub selected_workspace_id: Option<Id>,
    pub selected_task_id: Option<Id>,
    pub selected_repository_id: Option<Id>,
    pub expanded_workspace_ids: Vec<Id>,
    pub expanded_task_ids: Vec<Id>,
    pub unseen_task_ids: Vec<Id>,
    pub terminals: Vec<TerminalDescriptor>,
    pub docks: Vec<DockEntry>,
    pub agent_order: Vec<String>,
    pub language: Language,
    pub theme: AppTheme,
    pub navigation_expansion_initialized: bool,
}

/// What settings return to.
#[derive(Clone, Copy, Debug, PartialEq, Eq, Structural)]
pub struct ReturnView {
    pub show_terminal: bool,
    pub show_task_details: bool,
    pub show_project_overview: bool,
    pub project_settings: Option<Id>,
}

/// What the central surface shows. With nothing set it is the workbench, or the
/// home page where no file is open.
#[derive(Clone, Copy, Debug, PartialEq, Eq, Structural)]
pub struct Surface {
    pub show_terminal: bool,
    pub show_task_details: bool,
    pub show_project_overview: bool,
    pub show_settings: bool,
    pub project_settings: Option<Id>,
    pub return_view: Option<ReturnView>,
}

/// What removing a repository of a project does: a link is only unlinked.
#[derive(Debug)]
pub struct RemovalPlan {
    pub linked: bool,
    pub path: String,
}

#[derive(Debug)]
pub struct RepositoryRemoval {
    pub request_id: Id,
    pub workspace_id: Id,
    pub repository_id: Id,
    pub plan: RemovalPlan,
}

/// The dialogs that wait for an answer.
#[derive(Debug)]
pub struct Modals {
    pub project_request: Option<Id>,
    pub appearance_request: Option<(Id, Id)>,
    pub repository_workspace: Option<Id>,
    pub repository_removal: Option<RepositoryRemoval>,
    pub project_submitting: bool,
    pub sources: Vec<String>,
    pub task_request: Option<(Id, Id)>,
    pub task_removal: Option<Id>,
    pub agent_removal: Option<Id>,
    pub task_submitting: bool,
}

#[derive(Clone, Copy, Debug, PartialEq, Eq, Structural)]
pub enum FileExplorerMode {
    Files,
    Changes,
}

#[derive(Debug)]
pub struct FileEntry {
    pub path: String,
    pub name: String,
    pub hidden: bool,
    pub kind: FileEntryKind,
}

#[derive(Debug)]
pub enum DirectoryListing {
    Loading,
    Loaded(Vec<FileEntry>),
    Error(String),
}

#[derive(Debug)]
pub struct RepositoryChange {
    pub path: String,
    pub relative_path: String,
    pub previous_relative_path: Option<String>,
    pub kind: RepositoryChangeKind,
}

#[derive(Debug)]
pub enum RepositoryChangesState {
    Idle,
    Loading,
    Ready(Vec<RepositoryChange>),
    Error(String),
}

/// The local changes of a repository, with the read that is under way.
#[derive(Debug)]
pub struct ChangesFeed {
    pub state: RepositoryChangesState,
    pub request_id: u64,
    pub in_flight: bool,
    pub refresh_pending: bool,
}

#[derive(Debug)]
pub struct FileExplorerState {
    pub open: bool,
    pub root: Option<String>,
    pub root_label: String,
    pub mode: FileExplorerMode,
    pub expanded: PathSet,
    pub directories: PathMap<DirectoryListing>,
    pub requests: PathMap<u64>,
    pub selected: Option<String>,
    pub next_request_id: u64,
    pub changes: ChangesFeed,
}

#[derive(Debug)]
pub enum FileDocumentLoadState {
    Loading,
    Ready(String),
    Open,
    Error(String),
}

/// The open document. `editor` is the text in its editor, once there is one.
#[derive(Debug)]
pub struct FileDocument {
    pub root: String,
    pub path: String,
    pub source: FileDocumentSource,
    pub language: String,
    pub editor: Option<String>,
    pub load_state: FileDocumentLoadState,
    pub revision: u64,
    pub dirty: bool,
    pub save_state: NoteSaveState,
    pub request_id: u64,
}

#[derive(Clone, Copy, Debug, PartialEq, Eq, Structural)]
pub enum RepositoryDiffLineKind {
    Context,
    Changed,
    Added,
    Deleted,
}

#[derive(Debug)]
pub enum RepositoryDiffRow {
    Hunk { old_start: usize, new_start: usize, header: String },
    Line {
        old_number: Option<usize>,
        new_number: Option<usize>,
        old_text: String,
        new_text: String,
        kind: RepositoryDiffLineKind,
    },
}

#[derive(Debug)]
pub struct RepositoryFileDiff {
    pub original: Option<String>,
    pub modified: Option<String>,
    pub rows: Vec<RepositoryDiffRow>,
    pub binary: bool,
    pub truncated: bool,
}

#[derive(Debug)]
pub enum FileDiffLoadState {
    Loading,
    Ready(RepositoryFileDiff),
    Error(String),
}

/// The open comparison.
#[derive(Debug)]
pub struct FileDiff {
    pub root: String,
    pub change: RepositoryChange,
    pub load_state: FileDiffLoadState,
    pub request_id: u64,
    pub request_in_flight: bool,
    pub refresh_pending: bool,
    /// The commits that are compared, where it is not the local change.
    pub comparison: Option<Comparison>,
}

#[derive(Debug)]
pub struct RepositoryGitSummary {
    pub branch: Option<String>,
    pub additions: u64,
    pub deletions: u64,
}

/// What is known of the repositories on disk, and which reads are under way.
#[derive(Debug)]
pub struct GitSummaries {
    pub summaries: PathMap<RepositoryGitSummary>,
    pub requests: PathSet,
    pub refresh_pending: PathSet,
    pub save_requests: PathMap<u64>,
    pub next_save_request_id: u64,
}

#[derive(Clone, Copy, Debug, PartialEq, Eq, Structural)]
pub enum QuickOpenMode {
    Navigation,
    Files,
}

#[derive(Debug)]
pub enum QuickOpenTarget {
    Terminal { terminal_id: Id },
    Project { workspace_id: Id },
    Task { workspace_id: Id, task_id: Id },
    File { root: String, root_label: String, path: String },
}

#[derive(Debug)]
pub struct QuickOpenItem {
    pub title: String,
    pub subtitle: String,
    pub search_key: String,
    pub kind_label: String,
    pub icon: AppIcon,
    pub color: u32,
    pub color_css: String,
    pub terminal_provider: Option<AgentKind>,
    pub target: QuickOpenTarget,
}

#[derive(Debug)]
pub enum QuickOpenEntries {
    Loading,
    Ready(Vec<QuickOpenItem>),
    Error(String),
}

/// The open palette. `query` is the text typed into it.
#[derive(Debug)]
pub struct QuickOpenState {
    pub id: u64,
    pub mode: QuickOpenMode,
    pub placeholder: String,
    pub query: String,
    pub entries: QuickOpenEntries,
    pub selected: usize,
}

#[derive(Clone, Copy, Debug, PartialEq, Eq, Structural)]
pub enum AppToastTarget {
    Terminal { terminal_id: Id, agent: AgentKind },
    Task { task_id: Id },
}

#[derive(Debug)]
pub struct AppToast {
    pub target: AppToastTarget,
    pub title: String,
    pub message: String,
}

#[derive(Clone, Copy, Debug, PartialEq, Eq, Structural)]
pub enum AgentAuthStatus {
    Connecting,
    NeedsInput,
    Connected,
    Error,
}

/// A sign-in under way. `live` while its process can still be cancelled.
#[derive(Debug)]
pub struct AgentAuthentication {
    pub id: Id,
    pub provider: AgentProvider,
    pub status: AgentAuthStatus,
    pub detail: String,
    pub output: String,
    pub opened_url: Option<String>,
    pub live: bool,
}

#[derive(Debug)]
pub struct PlanUsageWindow {
    pub label: String,
    pub minutes: Option<u64>,
}

#[derive(Debug)]
pub struct ProviderPlanUsage {
    pub subscription_type: Option<String>,
    pub rate_limits_available: bool,
    pub windows: Vec<PlanUsageWindow>,
}

/// What is known of the limits of the selected account.
#[derive(Debug)]
pub struct PlanUsage {
    pub refreshing: bool,
    pub refresh_error: bool,
    pub active: Option<ProviderPlanUsage>,
    pub updated_at: Option<Time>,
    pub generation: u64,
}

#[derive(Debug)]
pub struct UpdateState {
    pub enabled: bool,
    pub error: String,
    pub restart: bool,
    pub busy: bool,
    pub available: String,
}

#[derive(Debug)]
pub struct Status {
    pub message: String,
    pub error: bool,
}

/// The names that the agents are shown under, the one that the titles, messages and
/// directories of the first provider are told by, and that of the file that agents
/// take their instructions from.
#[derive(Debug)]
pub struct AgentLabels {
    pub shell: String,
    pub claude: String,
    pub codex: String,
    pub gemini: String,
    pub open_code: String,
    pub antigravity: String,
    pub claude_name: String,
    pub instructions_file: String,
}

#[derive(Debug)]
pub struct LegacyNote {
    pub task_id: Id,
    pub text: String,
}

/// The application: its records, what is shown, and the requests to the host
/// that are not yet taken.
#[derive(Debug)]
pub struct BlackholesApp {
    pub update_state: UpdateState,
    pub integrations_running: bool,
    pub task_workspaces: String,
    pub agent_labels: AgentLabels,
    pub has_workspace_webview: bool,
    pub has_navigation_webview: bool,
    pub modals: Modals,
    pub authentication: Option<AgentAuthentication>,
    pub workspaces: Vec<Workspace>,
    pub tasks: Vec<ProjectTask>,
    pub session: AppSession,
    /// The terminals whose process runs.
    pub running: Vec<Id>,
    pub task_details_dirty: Vec<Id>,
    pub task_legacy_notes: Vec<LegacyNote>,
    pub file_explorer: FileExplorerState,
    pub active_file: Option<FileDocument>,
    pub active_diff: Option<FileDiff>,
    pub next_file_request_id: u64,
    pub next_file_diff_request_id: u64,
    pub git: GitSummaries,
    pub source_control: SourceControl,
    pub quick_open: Option<QuickOpenState>,
    pub next_quick_open_id: u64,
    pub surface: Surface,
    pub plan_usage: PlanUsage,
    pub app_toasts: Vec<AppToast>,
    pub status: Option<Status>,
    pub status_revision: u64,
    pub busy: Option<String>,
    pub effects: Vec<Effect>,
}

// ---------------------------------------------------------------------------
// What is selected
// ---------------------------------------------------------------------------
pub open spec fn agent_name(labels: AgentLabels, agent: AgentKind) -> Seq<char> {
    match agent {
        AgentKind::Shell => labels.shell@,
        AgentKind::Claude => labels.claude@,
        AgentKind::Codex => labels.codex@,
        AgentKind::Gemini => labels.gemini@,
        AgentKind::OpenCode => labels.open_code@,
        AgentKind::Antigravity => labels.antigravity@,
    }
}

impl AgentLabels {
    /// The name that an agent is shown under.
    pub fn label(&self, agent: AgentKind) -> (result: &str)
        ensures
            result@ == agent_name(*self, agent),
    {
        match agent {
            AgentKind::Shell => self.shell.as_str(),
            AgentKind::Claude => self.claude.as_str(),
            AgentKind::Codex => self.codex.as_str(),
            AgentKind::Gemini => self.gemini.as_str(),
            AgentKind::OpenCode => self.open_code.as_str(),
            AgentKind::Antigravity => self.antigravity.as_str(),
        }
    }
}

impl BlackholesApp {
    /// Where the selected project stands.
    pub open spec fn workspace_selected(&self) -> Option<int> {
        match self.session.selected_workspace_id {
            Some(id) => workspace_at(self.workspaces@, id),
            None => None,
        }
    }

    /// Where the selected task stands.
    pub open spec fn task_selected(&self) -> Option<int> {
        match self.session.selected_task_id {
            Some(id) => task_at(self.tasks@, id),
            None => None,
        }
    }

    /// The key of the dock of the selection.
    pub open spec fn dock_selected(&self) -> Option<DockKey> {
        match self.session.selected_workspace_id {
            Some(workspace_id) => Some(
                DockKey {
                    workspace_id,
                    task_id: self.session.selected_task_id,
                    repository_id: self.session.selected_repository_id,
                },
            ),
            None => None,
        }
    }

    /// The terminal in front in the dock of the selection.
    pub open spec fn terminal_selected(&self) -> Option<Id> {
        match self.dock_selected() {
            Some(key) => front_terminal(self.session.docks@, key),
            None => None,
        }
    }

    /// The text of the chosen language.
    pub open spec fn text(&self, english: Seq<char>, spanish: Seq<char>) -> Seq<char> {
        in_language(self.session.language, english, spanish)
    }

    /// The text of the chosen language.
    pub fn tr<'a>(&self, english: &'a str, spanish: &'a str) -> (result: &'a str)
        ensures
            result@ == self.text(english@, spanish@),
    {
        crate::model::tr(self.session.language, english, spanish)
    }

    /// Where the selected project stands.
    pub fn selected_workspace(&self) -> (result: Option<usize>)
        ensures
            crate::search::position(result) == self.workspace_selected(),
            result matches Some(at) ==> at < self.workspaces@.len(),
    {
        match self.session.selected_workspace_id {
            Some(id) => find_workspace(&self.workspaces, id),
            None => None,
        }
    }

    /// Where the selected task stands.
    pub fn selected_task(&self) -> (result: Option<usize>)
        ensures
            crate::search::position(result) == self.task_selected(),
            result matches Some(at) ==> at < self.tasks@.len(),
    {
        match self.session.selected_task_id {
            Some(id) => find_task(&self.tasks, id),
            None => None,
        }
    }

    /// The key of the dock of the selection.
    pub fn selected_dock_key(&self) -> (result: Option<DockKey>)
        ensures
            result == self.dock_selected(),
    {
        match self.session.selected_workspace_id {
            Some(workspace_id) => Some(
                DockKey {
                    workspace_id,
                    task_id: self.session.selected_task_id,
                    repository_id: self.session.selected_repository_id,
                },
            ),
            None => None,
        }
    }

    /// The terminal in front in the dock of the selection.
    pub fn selected_terminal_id(&self) -> (result: Option<Id>)
        ensures
            result == self.terminal_selected(),
    {
        match self.selected_dock_key() {
            Some(key) => terminal_in_front(&self.session.docks, key),
            None => None,
        }
    }
}

// ---------------------------------------------------------------------------
// Requests to the host
// ---------------------------------------------------------------------------
impl BlackholesApp {
    /// `after` is `before` with requests added.
    pub open spec fn requests(before: Self, after: Self, effects: Seq<Effect>) -> bool {
        &&& after.effects@ == before.effects@ + effects
        &&& after == (BlackholesApp { effects: after.effects, ..before })
    }

    /// The requests that were added between two states.
    pub open spec fn asked(before: Self, after: Self) -> Seq<Effect> {
        after.effects@.skip(before.effects@.len() as int)
    }

    /// Takes the requests, in the order they were made.
    pub fn take_effects(&mut self) -> (result: Vec<Effect>)
        ensures
            result@ == old(self).effects@,
            final(self).effects@ == Seq::<Effect>::empty(),
            *final(self) == (BlackholesApp { effects: final(self).effects, ..*old(self) }),
    {
        let mut taken: Vec<Effect> = Vec::new();
        std::mem::swap(&mut taken, &mut self.effects);
        taken
    }

    /// Adds a request.
    pub(crate) fn emit(&mut self, effect: Effect)
        ensures
            Self::requests(*old(self), *final(self), seq![effect]),
    {
        self.effects.push(effect);
        assert(self.effects@ =~= old(self).effects@ + seq![effect]);
    }

    /// The request to draw the window again.
    pub(crate) fn notify(&mut self)
        ensures
            Self::requests(*old(self), *final(self), seq![Effect::Redraw]),
    {
        self.emit(Effect::Redraw);
    }

    /// The request to write the session.
    pub open spec fn persists(&self) -> Effect {
        Effect::PersistSession { status_revision: self.status_revision }
    }

    /// Asks for the session to be written.
    pub fn persist_session(&mut self)
        ensures
            Self::requests(*old(self), *final(self), seq![old(self).persists()]),
    {
        let status_revision: u64 = self.status_revision;
        self.emit(Effect::PersistSession { status_revision });
    }

    /// The session could not be written. The message is shown unless another one
    /// came up after the session was to be written.
    pub fn session_save_failed(&mut self, status_revision: u64, error: &str)
        ensures
            status_revision == old(self).status_revision ==> {
                &&& final(self).status matches Some(status) && status.message@
                    == "Could not save the session: "@ + error@ && status.error
                &&& *final(self) == (BlackholesApp { status: final(self).status, ..*old(self) })
            },
            status_revision != old(self).status_revision ==> *final(self) == *old(self),
    {
        if status_revision == self.status_revision {
            self.status = Some(
                Status {
                    message: crate::text::join2("Could not save the session: ", error),
                    error: true,
                },
            );
        }
    }
}

// ---------------------------------------------------------------------------
// The status message
// ---------------------------------------------------------------------------
impl BlackholesApp {
    /// The next value of a wrapping counter.
    pub open spec fn next(counter: u64) -> u64 {
        if counter == u64::MAX {
            0
        } else {
            (counter + 1) as u64
        }
    }

    /// `after` is `before` with the message shown and set to expire.
    pub open spec fn reports(before: Self, after: Self, message: Seq<char>, error: bool) -> bool {
        &&& after.status matches Some(status) && status.message@ == message && status.error == error
        &&& after.status_revision == Self::next(before.status_revision)
        &&& after.effects@ == before.effects@ + seq![
            Effect::ExpireStatus { revision: after.status_revision },
            Effect::Redraw,
        ]
        &&& after == (BlackholesApp {
            status: after.status,
            status_revision: after.status_revision,
            effects: after.effects,
            ..before
        })
    }

    /// Shows a message until its time is over or another one comes up.
    pub fn set_status(&mut self, message: String, error: bool)
        ensures
            Self::reports(*old(self), *final(self), message@, error),
    {
        self.status = Some(Status { message, error });
        self.status_revision = self.status_revision.wrapping_add(1);
        let revision: u64 = self.status_revision;
        self.emit(Effect::ExpireStatus { revision });
        self.notify();
        assert(self.effects@ =~= old(self).effects@ + seq![
            Effect::ExpireStatus { revision },
            Effect::Redraw,
        ]);
    }

    /// The time of a message is over: it goes unless another one came up.
    /// `shown` is the message as it was when its time began.
    pub fn expire_status(&mut self, revision: u64, shown: &Status)
        ensures
            ({
                let still_shown = old(self).status_revision == revision && (old(self).status matches Some(
                    status,
                ) && status.message@ == shown.message@ && status.error == shown.error);
                if still_shown {
                    &&& final(self).status is None
                    &&& final(self).effects@ == old(self).effects@ + seq![Effect::Redraw]
                    &&& *final(self) == (BlackholesApp {
                        status: None,
                        effects: final(self).effects,
                        ..*old(self)
                    })
                } else {
                    *final(self) == *old(self)
                }
            }),
    {
        if self.status_revision != revision {
            return ;
        }
        let same: bool = match &self.status {
            Some(status) => status.error == shown.error && same_text(
                status.message.as_str(),
                shown.message.as_str(),
            ),
            None => false,
        };
        if same {
            self.status = None;
            self.notify();
        }
    }

    /// `after` is `before` with the message taken away.
    pub open spec fn dismisses_status(before: Self, after: Self) -> bool {
        &&& after.effects@ == before.effects@ + seq![Effect::Redraw]
        &&& after == (BlackholesApp {
            status: None,
            status_revision: Self::next(before.status_revision),
            effects: after.effects,
            ..before
        })
    }

    /// Takes the message away.
    pub fn dismiss_status(&mut self)
        ensures
            Self::dismisses_status(*old(self), *final(self)),
    {
        self.status = None;
        self.status_revision = self.status_revision.wrapping_add(1);
        self.notify();
    }
}

// ---------------------------------------------------------------------------
// The central surface
// ---------------------------------------------------------------------------
impl Surface {
    /// Nothing but the workbench or the home page.
    pub open spec fn plain(self) -> Surface {
        Surface {
            show_terminal: false,
            show_task_details: false,
            show_project_overview: false,
            show_settings: false,
            project_settings: None,
            return_view: self.return_view,
        }
    }

    /// At most one of the pages is chosen.
    pub open spec fn one_page(self) -> bool {
        let pages = (if self.show_terminal {
            1int
        } else {
            0
        }) + (if self.show_task_details {
            1int
        } else {
            0
        }) + (if self.show_project_overview {
            1int
        } else {
            0
        }) + (if self.show_settings {
            1int
        } else {
            0
        }) + (if self.project_settings is Some {
            1int
        } else {
            0
        });
        pages <= 1
    }

    /// Leaves whatever page is shown.
    pub fn clear(&mut self)
        ensures
            *final(self) == old(self).plain(),
    {
        self.show_terminal = false;
        self.show_task_details = false;
        self.show_project_overview = false;
        self.show_settings = false;
        self.project_settings = None;
    }
}

impl BlackholesApp {
    /// A file, a comparison or the file explorer is open.
    pub open spec fn workbench_in_use(&self) -> bool {
        self.file_explorer.open || self.active_file is Some || self.active_diff is Some
    }

    /// What the central surface shows: nothing where a terminal is in front.
    pub open spec fn surface_shown(&self) -> Option<SurfaceTarget> {
        match self.surface.project_settings {
            Some(workspace_id) => Some(SurfaceTarget::ProjectSettings { workspace_id }),
            None => if self.surface.show_settings {
                Some(SurfaceTarget::Settings)
            } else if self.surface.show_project_overview {
                match self.session.selected_workspace_id {
                    Some(workspace_id) => Some(SurfaceTarget::ProjectOverview { workspace_id }),
                    None => None,
                }
            } else if self.surface.show_task_details {
                match self.session.selected_task_id {
                    Some(task_id) => Some(SurfaceTarget::TaskDetails { task_id }),
                    None => None,
                }
            } else if self.surface.show_terminal {
                None
            } else if self.workbench_in_use() {
                Some(SurfaceTarget::Workbench)
            } else {
                Some(SurfaceTarget::Home)
            },
        }
    }

    /// What the central surface shows.
    pub fn active_surface(&self) -> (result: Option<SurfaceTarget>)
        ensures
            result == self.surface_shown(),
    {
        if let Some(workspace_id) = self.surface.project_settings {
            return Some(SurfaceTarget::ProjectSettings { workspace_id });
        }
        if self.surface.show_settings {
            Some(SurfaceTarget::Settings)
        } else if self.surface.show_project_overview {
            match self.session.selected_workspace_id {
                Some(workspace_id) => Some(SurfaceTarget::ProjectOverview { workspace_id }),
                None => None,
            }
        } else if self.surface.show_task_details {
            match self.session.selected_task_id {
                Some(task_id) => Some(SurfaceTarget::TaskDetails { task_id }),
                None => None,
            }
        } else if self.surface.show_terminal {
            None
        } else if self.file_explorer.open || self.active_file.is_some() || self.active_diff.is_some() {
            Some(SurfaceTarget::Workbench)
        } else {
            Some(SurfaceTarget::Home)
        }
    }

    /// The request to publish what the central surface shows.
    pub open spec fn publishes_surface(&self) -> Seq<Effect> {
        match self.surface_shown() {
            Some(target) => seq![Effect::PublishSurface { target }],
            None => seq![],
        }
    }

    /// Publishes what the central surface shows.
    pub fn hydrate_active_workspace_surface(&mut self)
        ensures
            Self::requests(*old(self), *final(self), old(self).publishes_surface()),
    {
        match self.active_surface() {
            Some(target) => self.emit(Effect::PublishSurface { target }),
            None => {
                assert(self.effects@ =~= old(self).effects@ + Seq::<Effect>::empty());
            },
        }
    }

    /// The request to publish the workbench where it is what is shown.
    pub open spec fn publishes_workbench(&self) -> Seq<Effect> {
        if self.surface_shown() == Some(SurfaceTarget::Workbench) {
            seq![Effect::PublishSurface { target: SurfaceTarget::Workbench }]
        } else {
            seq![]
        }
    }

    /// Publishes the workbench where it is what is shown.
    pub fn publish_workbench_surface(&mut self)
        ensures
            Self::requests(*old(self), *final(self), old(self).publishes_workbench()),
    {
        if let Some(SurfaceTarget::Workbench) = self.active_surface() {
            self.emit(Effect::PublishSurface { target: SurfaceTarget::Workbench });
        } else {
            assert(self.effects@ =~= old(self).effects@ + Seq::<Effect>::empty());
        }
    }

    /// `after` is `before` with the workbench published, where it is what is
    /// shown, and the window drawn again.
    pub open spec fn shows_workbench(before: Self, after: Self) -> bool {
        Self::requests(before, after, before.publishes_workbench() + seq![Effect::Redraw])
    }

    /// Publishes the workbench where it is what is shown and draws the window again.
    pub(crate) fn show_workbench(&mut self)
        ensures
            Self::shows_workbench(*old(self), *final(self)),
    {
        self.publish_workbench_surface();
        self.notify();
        assert(self.effects@ =~= old(self).effects@ + (old(self).publishes_workbench() + seq![
            Effect::Redraw,
        ]));
    }
}

} // verus!
