//! The application as it starts: what it finds again of the last session, and
//! what is told of the things that could not be prepared.
use vstd::prelude::*;
use vstd::string::*;
use vstd::utf8::encode_utf8;

use crate::app::{
    AgentLabels, AppSession, BlackholesApp, GitSummaries, LegacyNote, Modals, PlanUsage, Status,
    Surface, UpdateState,
};
use crate::collections::{PathMap, PathSet};
use crate::effects::Effect;
use crate::explorer::{closed_explorer, ExplorerModel};
use crate::history::SourceControl;
use crate::ids::{parse_id, uuid_of, Id};
use crate::model::{
    find_task, find_terminal, find_workspace, task_at, terminal_at, workspace_at, AgentKind,
    ProjectTask, SessionState, TerminalDescriptor, Workspace,
};
use crate::paths::{is_under, lies_under};
use crate::removal::first_workspace;
use crate::search::retain_where;
use crate::text::{join2, join3, join4, strip_prefix};
use crate::titles::{agent_from_terminal_title, agent_of_title};

verus! {

// ---------------------------------------------------------------------------
// The last session
// ---------------------------------------------------------------------------
/// The agent whose conversation a terminal recorded, where it is only one.
pub open spec fn recorded_agent(terminal: TerminalDescriptor) -> Option<AgentKind> {
    if terminal.codex_session is Some && terminal.claude_session is None {
        Some(AgentKind::Codex)
    } else if terminal.codex_session is None && terminal.claude_session is Some {
        Some(AgentKind::Claude)
    } else {
        None
    }
}

/// The agent of a terminal of the last session: that of its conversation, else
/// the one that its title names, else the one it had.
pub open spec fn restored_agent(terminal: TerminalDescriptor, claude: Seq<char>) -> AgentKind {
    match recorded_agent(terminal) {
        Some(agent) if terminal.agent != AgentKind::Shell => agent,
        _ => match agent_of_title(terminal.label@, claude) {
            Some(agent) => agent,
            None => terminal.agent,
        },
    }
}

/// A terminal of the last session as it is found again. A mere shell has no
/// conversation.
pub open spec fn restored(terminal: TerminalDescriptor, claude: Seq<char>) -> TerminalDescriptor {
    let agent = restored_agent(terminal, claude);
    if agent == AgentKind::Shell {
        TerminalDescriptor {
            state: SessionState::Restored,
            agent,
            codex_session: None,
            claude_session: None,
            ..terminal
        }
    } else {
        TerminalDescriptor { state: SessionState::Restored, agent, ..terminal }
    }
}

impl TerminalDescriptor {
    /// Finds a terminal of the last session again.
    pub fn restore(&mut self, claude: &str)
        ensures
            *final(self) == restored(*old(self), claude@),
    {
        self.state = SessionState::Restored;
        let recorded: Option<AgentKind> = if self.codex_session.is_some()
            && self.claude_session.is_none() {
            Some(AgentKind::Codex)
        } else if self.codex_session.is_none() && self.claude_session.is_some() {
            Some(AgentKind::Claude)
        } else {
            None
        };
        let mut settled: bool = false;
        if self.agent != AgentKind::Shell {
            if let Some(agent) = recorded {
                self.agent = agent;
                settled = true;
            }
        }
        if !settled {
            if let Some(agent) = agent_from_terminal_title(self.label.as_str(), claude) {
                self.agent = agent;
            }
        }
        if self.agent == AgentKind::Shell {
            self.codex_session = None;
            self.claude_session = None;
        }
    }
}

/// The key is that of a terminal of the list.
pub open spec fn is_terminal_key(terminals: Seq<TerminalDescriptor>, key: Seq<char>) -> bool {
    &&& "terminal:"@.is_prefix_of(key)
    &&& uuid_of(encode_utf8(key.skip("terminal:"@.len() as int))) matches Some(id) && terminal_at(
        terminals,
        id,
    ) is Some
}

pub open spec fn names_terminal(terminals: Seq<TerminalDescriptor>) -> spec_fn(String) -> bool {
    |key: String| is_terminal_key(terminals, key@)
}

fn names_known_terminal(terminals: &Vec<TerminalDescriptor>, key: &str) -> (result: bool)
    ensures
        result == is_terminal_key(terminals@, key@),
{
    let rest = match strip_prefix(key, "terminal:") {
        Some(rest) => rest,
        None => {
            return false;
        },
    };
    proof {
        assert(key@.skip("terminal:"@.len() as int) =~= rest@);
        assert("terminal:"@ =~= key@.take("terminal:"@.len() as int));
    }
    match parse_id(rest.as_str()) {
        Some(id) => find_terminal(terminals, id).is_some(),
        None => false,
    }
}

pub open spec fn is_known_task(tasks: Seq<ProjectTask>) -> spec_fn(Id) -> bool {
    |task_id: Id| task_at(tasks, task_id) is Some
}

/// The selected project is one of the list.
pub open spec fn selects_known(session: AppSession, workspaces: Seq<Workspace>) -> bool {
    session.selected_workspace_id matches Some(id) && workspace_at(workspaces, id) is Some
}

impl AppSession {
    /// `after` is the session `before` as it is found again: nothing is expanded,
    /// and what is gone is neither selected, unseen nor in the order of agents.
    pub open spec fn restores(
        before: Self,
        after: Self,
        workspaces: Seq<Workspace>,
        tasks: Seq<ProjectTask>,
        claude: Seq<char>,
    ) -> bool {
        &&& after.unseen_task_ids@ == before.unseen_task_ids@.filter(is_known_task(tasks))
        &&& after.terminals@ == before.terminals@.map_values(
            |terminal: TerminalDescriptor| restored(terminal, claude),
        )
        &&& after.agent_order@ == before.agent_order@.filter(names_terminal(after.terminals@))
        &&& after.expanded_workspace_ids@ == Seq::<Id>::empty()
        &&& after.expanded_task_ids@ == Seq::<Id>::empty()
        &&& after == (if selects_known(before, workspaces) {
            AppSession {
                unseen_task_ids: after.unseen_task_ids,
                terminals: after.terminals,
                agent_order: after.agent_order,
                expanded_workspace_ids: after.expanded_workspace_ids,
                expanded_task_ids: after.expanded_task_ids,
                navigation_expansion_initialized: true,
                ..before
            }
        } else {
            AppSession {
                unseen_task_ids: after.unseen_task_ids,
                terminals: after.terminals,
                agent_order: after.agent_order,
                expanded_workspace_ids: after.expanded_workspace_ids,
                expanded_task_ids: after.expanded_task_ids,
                navigation_expansion_initialized: true,
                selected_workspace_id: first_workspace(workspaces),
                selected_task_id: None,
                selected_repository_id: None,
                ..before
            }
        })
    }

    /// Finds the last session again.
    pub fn restore(&mut self, workspaces: &Vec<Workspace>, tasks: &Vec<ProjectTask>, claude: &str)
        ensures
            Self::restores(*old(self), *final(self), workspaces@, tasks@, claude@),
    {
        let ghost before = *self;
        let known = |task_id: &Id| -> (kept: bool)
            ensures
                kept == (task_at(tasks@, *task_id) is Some),
        { find_task(tasks, *task_id).is_some() };
        retain_where(&mut self.unseen_task_ids, Ghost(is_known_task(tasks@)), known);
        let ghost step = |terminal: TerminalDescriptor| restored(terminal, claude@);
        let mut index: usize = 0;
        while index < self.terminals.len()
            invariant
                index <= self.terminals@.len(),
                self.terminals@.len() == before.terminals@.len(),
                forall|i: int|
                    0 <= i < index ==> #[trigger] self.terminals@[i] == restored(
                        before.terminals@[i],
                        claude@,
                    ),
                forall|i: int|
                    index <= i < self.terminals@.len() ==> #[trigger] self.terminals@[i]
                        == before.terminals@[i],
                self.unseen_task_ids@ == before.unseen_task_ids@.filter(is_known_task(tasks@)),
                *self == (AppSession {
                    unseen_task_ids: self.unseen_task_ids,
                    terminals: self.terminals,
                    ..before
                }),
            decreases self.terminals@.len() - index,
        {
            self.terminals[index].restore(claude);
            index += 1;
        }
        assert(self.terminals@ =~= before.terminals@.map_values(step));
        let selected: bool = match self.selected_workspace_id {
            Some(id) => find_workspace(workspaces, id).is_some(),
            None => false,
        };
        if !selected {
            self.selected_workspace_id =
            if workspaces.len() == 0 {
                None
            } else {
                Some(workspaces[0].id)
            };
            self.selected_task_id = None;
            self.selected_repository_id = None;
        }
        let terminals = &self.terminals;
        let named = |key: &String| -> (kept: bool)
            ensures
                kept == is_terminal_key(terminals@, key@),
        { names_known_terminal(terminals, key.as_str()) };
        retain_where(&mut self.agent_order, Ghost(names_terminal(terminals@)), named);
        self.expanded_workspace_ids = Vec::new();
        self.expanded_task_ids = Vec::new();
        self.navigation_expansion_initialized = true;
    }
}

/// What is found again refers to nothing that is gone: the selected project is
/// known, if there are projects, and so is every task that counts as unseen.
pub proof fn law_restored_session(
    before: AppSession,
    after: AppSession,
    workspaces: Seq<Workspace>,
    tasks: Seq<ProjectTask>,
    claude: Seq<char>,
)
    requires
        AppSession::restores(before, after, workspaces, tasks, claude),
    ensures
        workspaces.len() > 0 ==> (after.selected_workspace_id matches Some(id) && workspace_at(
            workspaces,
            id,
        ) is Some),
        workspaces.len() == 0 ==> after.selected_workspace_id is None,
        forall|i: int|
            0 <= i < after.unseen_task_ids@.len() ==> task_at(
                tasks,
                #[trigger] after.unseen_task_ids@[i],
            ) is Some,
        forall|i: int|
            0 <= i < after.terminals@.len() ==> (#[trigger] after.terminals@[i]).state
                == SessionState::Restored,
        forall|i: int|
            0 <= i < after.terminals@.len() && (#[trigger] after.terminals@[i]).agent
                == AgentKind::Shell ==> after.terminals@[i].codex_session is None
                && after.terminals@[i].claude_session is None,
{
    broadcast use Seq::lemma_filter_pred;

    assert(forall|i: int|
        0 <= i < after.unseen_task_ids@.len() ==> is_known_task(tasks)(
            #[trigger] after.unseen_task_ids@[i],
        ));
    if selects_known(before, workspaces) && workspaces.len() == 0 {
        crate::search::lemma_first_where(
            workspaces,
            crate::model::workspace_is(before.selected_workspace_id->0),
            0,
        );
    }
    if !selects_known(before, workspaces) && workspaces.len() > 0 {
        assert(crate::search::first_where(
            workspaces,
            crate::model::workspace_is(workspaces[0].id),
            0,
        ) == Some(0int));
    }
}

// ---------------------------------------------------------------------------
// What could not be prepared
// ---------------------------------------------------------------------------
/// Something that could not be prepared.
#[derive(Debug)]
pub enum StartupFailure {
    ProjectNotes { name: String, error: String },
    TaskContext { name: String, error: String },
    EventBridge { error: String },
    CommandBridge { error: String },
    CodexHooks { error: String },
    ClaudeHooks { name: String, error: String },
    WorkspaceSurface { error: String },
    NavigationSurface { error: String },
}

/// What is told of something that could not be prepared.
pub open spec fn failure_text(failure: StartupFailure) -> Seq<char> {
    match failure {
        StartupFailure::ProjectNotes { name, error } => "Could not prepare project notes for '"@
            + name@ + "': "@ + error@,
        StartupFailure::TaskContext { name, error } => "Could not refresh the AI context for '"@
            + name@ + "': "@ + error@,
        StartupFailure::EventBridge { error } => "Local AI bridge is unavailable: "@ + error@,
        StartupFailure::CommandBridge { error } => "Agent command bridge is unavailable: "@
            + error@,
        StartupFailure::CodexHooks { error } => "Codex session resume is unavailable: "@ + error@,
        StartupFailure::ClaudeHooks { name, error } => name@
            + " session resume is unavailable: "@ + error@,
        StartupFailure::WorkspaceSurface { error } => "The workspace is unavailable: "@ + error@,
        StartupFailure::NavigationSurface { error } => "The WebView navigation is unavailable: "@
            + error@,
    }
}

impl StartupFailure {
    /// What is told of something that could not be prepared.
    pub fn message(&self) -> (result: String)
        ensures
            result@ == failure_text(*self),
    {
        match self {
            StartupFailure::ProjectNotes { name, error } => join4(
                "Could not prepare project notes for '",
                name.as_str(),
                "': ",
                error.as_str(),
            ),
            StartupFailure::TaskContext { name, error } => join4(
                "Could not refresh the AI context for '",
                name.as_str(),
                "': ",
                error.as_str(),
            ),
            StartupFailure::EventBridge { error } => join2(
                "Local AI bridge is unavailable: ",
                error.as_str(),
            ),
            StartupFailure::CommandBridge { error } => join2(
                "Agent command bridge is unavailable: ",
                error.as_str(),
            ),
            StartupFailure::CodexHooks { error } => join2(
                "Codex session resume is unavailable: ",
                error.as_str(),
            ),
            StartupFailure::ClaudeHooks { name, error } => join3(
                name.as_str(),
                " session resume is unavailable: ",
                error.as_str(),
            ),
            StartupFailure::WorkspaceSurface { error } => join2(
                "The workspace is unavailable: ",
                error.as_str(),
            ),
            StartupFailure::NavigationSurface { error } => join2(
                "The WebView navigation is unavailable: ",
                error.as_str(),
            ),
        }
    }
}

/// The task is one whose files are kept up to date at the start.
pub open spec fn is_repaired(workspaces: Seq<Workspace>, folder: Seq<char>, task: ProjectTask) -> bool {
    workspace_at(workspaces, task.workspace_id) is Some && is_under(
        task.worktree_root_path@,
        folder,
    )
}

/// The places of the tasks whose files are kept up to date at the start, where
/// their folder is there.
pub fn tasks_to_repair(
    workspaces: &Vec<Workspace>,
    tasks: &Vec<ProjectTask>,
    task_workspaces: &str,
) -> (result: Vec<usize>)
    ensures
        forall|k: int|
            0 <= k < result@.len() ==> (#[trigger] result@[k]) < tasks@.len() && is_repaired(
                workspaces@,
                task_workspaces@,
                tasks@[result@[k] as int],
            ),
        forall|j: int, k: int|
            0 <= j < k < result@.len() ==> #[trigger] result@[j] < #[trigger] result@[k],
        forall|i: int|
            0 <= i < tasks@.len() && is_repaired(
                workspaces@,
                task_workspaces@,
                #[trigger] tasks@[i],
            ) ==> result@.contains(i as usize),
{
    let mut result: Vec<usize> = Vec::new();
    let mut index: usize = 0;
    while index < tasks.len()
        invariant
            index <= tasks@.len(),
            forall|k: int|
                0 <= k < result@.len() ==> (#[trigger] result@[k]) < index && is_repaired(
                    workspaces@,
                    task_workspaces@,
                    tasks@[result@[k] as int],
                ),
            forall|j: int, k: int|
                0 <= j < k < result@.len() ==> #[trigger] result@[j] < #[trigger] result@[k],
            forall|i: int|
                0 <= i < index && is_repaired(
                    workspaces@,
                    task_workspaces@,
                    #[trigger] tasks@[i],
                ) ==> result@.contains(i as usize),
        decreases tasks@.len() - index,
    {
        let ghost earlier = result@;
        if find_workspace(workspaces, tasks[index].workspace_id).is_some() && lies_under(
            tasks[index].worktree_root_path.as_str(),
            task_workspaces,
        ) {
            result.push(index);
            assert(result@.last() == index);
            assert forall|i: int| 0 <= i < index + 1 && is_repaired(
                workspaces@,
                task_workspaces@,
                #[trigger] tasks@[i],
            ) implies result@.contains(i as usize) by {
                if i < index {
                    let k = choose|k: int| 0 <= k < earlier.len() && earlier[k] == i as usize;
                    assert(result@[k] == i as usize);
                } else {
                    assert(result@[earlier.len() as int] == i as usize);
                }
            }
        }
        index += 1;
    }
    result
}

// ---------------------------------------------------------------------------
// The application
// ---------------------------------------------------------------------------
/// What the application starts with.
#[derive(Debug)]
pub struct Startup {
    pub workspaces: Result<Vec<Workspace>, String>,
    pub tasks: Result<Vec<ProjectTask>, String>,
    pub session: AppSession,
    pub task_workspaces: String,
    pub agent_labels: AgentLabels,
    pub update_state: UpdateState,
    pub git_available: bool,
    pub has_workspace_webview: bool,
    pub has_navigation_webview: bool,
    /// What could not be prepared, in the order it was tried.
    pub failures: Vec<StartupFailure>,
}

/// The records that could be read.
pub open spec fn read_records<T>(read: Result<Vec<T>, String>) -> Seq<T> {
    match read {
        Ok(records) => records@,
        Err(_) => Seq::empty(),
    }
}

/// What is told at the start: the last thing that went wrong.
pub open spec fn startup_text(start: Startup) -> Option<Seq<char>> {
    if start.failures@.len() > 0 {
        Some(failure_text(start.failures@.last()))
    } else {
        match start.tasks {
            Err(error) => Some("Could not load tasks: "@ + error@),
            Ok(_) => match start.workspaces {
                Err(error) => Some("Could not load projects: "@ + error@),
                Ok(_) => None,
            },
        }
    }
}

fn describe_startup(start: &Startup) -> (result: Option<Status>)
    ensures
        match result {
            Some(status) => status.error && startup_text(*start) == Some(status.message@),
            None => startup_text(*start) is None,
        },
{
    if start.failures.len() > 0 {
        let message = start.failures[start.failures.len() - 1].message();
        return Some(Status { message, error: true });
    }
    if let Err(error) = &start.tasks {
        let message = join2("Could not load tasks: ", error.as_str());
        return Some(Status { message, error: true });
    }
    if let Err(error) = &start.workspaces {
        let message = join2("Could not load projects: ", error.as_str());
        return Some(Status { message, error: true });
    }
    None
}

impl Modals {
    /// No dialog is open.
    pub open spec fn none(self) -> bool {
        &&& self.project_request is None
        &&& self.appearance_request is None
        &&& self.repository_workspace is None
        &&& self.repository_removal is None
        &&& !self.project_submitting
        &&& self.sources@ == Seq::<String>::empty()
        &&& self.task_request is None
        &&& self.task_removal is None
        &&& self.agent_removal is None
        &&& !self.task_submitting
    }
}

impl GitSummaries {
    /// Nothing is known of any repository.
    pub open spec fn is_empty(self) -> bool {
        &&& self.summaries@ == Map::<Seq<Seq<char>>, crate::app::RepositoryGitSummary>::empty()
        &&& self.requests@ == Set::<Seq<Seq<char>>>::empty()
        &&& self.refresh_pending@ == Set::<Seq<Seq<char>>>::empty()
        &&& self.save_requests@ == Map::<Seq<Seq<char>>, u64>::empty()
        &&& self.next_save_request_id == 0
    }
}

impl BlackholesApp {
    /// The application as it starts, before anything is asked of the host.
    pub open spec fn is_fresh(self, start: Startup) -> bool {
        &&& self.workspaces@ == read_records(start.workspaces)
        &&& self.tasks@ == read_records(start.tasks)
        &&& AppSession::restores(
            start.session,
            self.session,
            read_records(start.workspaces),
            read_records(start.tasks),
            start.agent_labels.claude_name@,
        )
        &&& match self.status {
            Some(status) => status.error && startup_text(start) == Some(status.message@),
            None => startup_text(start) is None,
        }
        &&& self.status_revision == 0
        &&& self.task_workspaces == start.task_workspaces
        &&& self.agent_labels == start.agent_labels
        &&& self.update_state == start.update_state
        &&& self.has_workspace_webview == start.has_workspace_webview
        &&& self.has_navigation_webview == start.has_navigation_webview
        &&& self.surface == (Surface {
            show_terminal: false,
            show_task_details: false,
            show_project_overview: false,
            show_settings: !start.git_available,
            project_settings: None,
            return_view: None,
        })
        &&& self.modals.none()
        &&& self.authentication is None
        &&& self.running@ == Seq::<Id>::empty()
        &&& self.task_details_dirty@ == Seq::<Id>::empty()
        &&& self.task_legacy_notes@ == Seq::<LegacyNote>::empty()
        &&& self.file_explorer@ == ExplorerModel::closed()
        &&& self.active_file is None
        &&& self.active_diff is None
        &&& self.next_file_request_id == 0
        &&& self.next_file_diff_request_id == 0
        &&& self.git.is_empty()
        &&& self.source_control.is_idle()
        &&& self.quick_open is None
        &&& self.next_quick_open_id == 0
        &&& self.plan_usage == (PlanUsage {
            refreshing: false,
            refresh_error: false,
            active: None,
            updated_at: None,
            generation: 0,
        })
        &&& self.app_toasts@ == Seq::<crate::app::AppToast>::empty()
        &&& self.busy is None
        &&& !self.integrations_running
        &&& self.effects@ == Seq::<Effect>::empty()
    }

    /// Starts the application. The integrations of the agents are set up at once.
    pub fn new(start: Startup) -> (result: Self)
        ensures
            exists|fresh: BlackholesApp| #[trigger]
                fresh.is_fresh(start) && Self::synchronizes(fresh, result),
    {
        let ghost given = start;
        let status = describe_startup(&start);
        let workspaces: Vec<Workspace> = match start.workspaces {
            Ok(records) => records,
            Err(_) => Vec::new(),
        };
        let tasks: Vec<ProjectTask> = match start.tasks {
            Ok(records) => records,
            Err(_) => Vec::new(),
        };
        assert(workspaces@ =~= read_records(given.workspaces));
        assert(tasks@ =~= read_records(given.tasks));
        let mut session = start.session;
        session.restore(&workspaces, &tasks, start.agent_labels.claude_name.as_str());
        let mut app = BlackholesApp {
            update_state: start.update_state,
            integrations_running: false,
            task_workspaces: start.task_workspaces,
            agent_labels: start.agent_labels,
            has_workspace_webview: start.has_workspace_webview,
            has_navigation_webview: start.has_navigation_webview,
            modals: Modals {
                project_request: None,
                appearance_request: None,
                repository_workspace: None,
                repository_removal: None,
                project_submitting: false,
                sources: Vec::new(),
                task_request: None,
                task_removal: None,
                agent_removal: None,
                task_submitting: false,
            },
            authentication: None,
            workspaces,
            tasks,
            session,
            running: Vec::new(),
            task_details_dirty: Vec::new(),
            task_legacy_notes: Vec::new(),
            file_explorer: closed_explorer(),
            active_file: None,
            active_diff: None,
            next_file_request_id: 0,
            next_file_diff_request_id: 0,
            git: GitSummaries {
                summaries: PathMap::new(),
                requests: PathSet::new(),
                refresh_pending: PathSet::new(),
                save_requests: PathMap::new(),
                next_save_request_id: 0,
            },
            source_control: SourceControl::new(),
            quick_open: None,
            next_quick_open_id: 0,
            surface: Surface {
                show_terminal: false,
                show_task_details: false,
                show_project_overview: false,
                show_settings: !start.git_available,
                project_settings: None,
                return_view: None,
            },
            plan_usage: PlanUsage {
                refreshing: false,
                refresh_error: false,
                active: None,
                updated_at: None,
                generation: 0,
            },
            app_toasts: Vec::new(),
            status,
            status_revision: 0,
            busy: None,
            effects: Vec::new(),
        };
        let ghost fresh = app;
        assert(fresh.is_fresh(given));
        app.refresh_external_integrations();
        app
    }

    /// The updater reports its state; the window is drawn again where it changed.
    pub fn note_update_state(&mut self, state: UpdateState)
        ensures
            exists|guarded: BlackholesApp| #[trigger]
                Self::requests(*old(self), guarded, seq![old(self).guards_update()])
                    && if same_update(old(self).update_state, state) {
                    *final(self) == guarded
                } else {
                    Self::requests(
                        BlackholesApp { update_state: state, ..guarded },
                        *final(self),
                        seq![Effect::Redraw],
                    )
                },
    {
        let ghost before = *self;
        self.sync_update_guard();
        assert(Self::requests(before, *self, seq![before.guards_update()]));
        if !is_same_update(&self.update_state, &state) {
            self.update_state = state;
            self.notify();
        }
    }
}

/// The updater is in the same state.
pub open spec fn same_update(a: UpdateState, b: UpdateState) -> bool {
    &&& a.enabled == b.enabled
    &&& a.error@ == b.error@
    &&& a.restart == b.restart
    &&& a.busy == b.busy
    &&& a.available@ == b.available@
}

fn is_same_update(a: &UpdateState, b: &UpdateState) -> (result: bool)
    ensures
        result == same_update(*a, *b),
{
    a.enabled == b.enabled && crate::text::same_text(a.error.as_str(), b.error.as_str())
        && a.restart == b.restart && a.busy == b.busy && crate::text::same_text(
        a.available.as_str(),
        b.available.as_str(),
    )
}

/// Every terminal of the last session is found again, where it was and under its name,
/// and does nothing. One with the conversation of a single agent is of that agent; the
/// others go by their title, and keep their agent where it names none.
pub proof fn law_terminals_restored(
    before: AppSession,
    after: AppSession,
    workspaces: Seq<Workspace>,
    tasks: Seq<ProjectTask>,
    claude: Seq<char>,
    at: int,
)
    requires
        AppSession::restores(before, after, workspaces, tasks, claude),
        0 <= at < before.terminals@.len(),
    ensures
        after.terminals@.len() == before.terminals@.len(),
        ({
            let was = before.terminals@[at];
            let is_now = after.terminals@[at];
            &&& is_now.id == was.id && is_now.workspace_id == was.workspace_id && is_now.task_id
                == was.task_id && is_now.repository_id == was.repository_id
            &&& is_now.label == was.label && is_now.cwd == was.cwd && is_now.agent_config_dir
                == was.agent_config_dir
            &&& is_now.state == SessionState::Restored
            &&& was.agent != AgentKind::Shell && was.codex_session is Some && was.claude_session is None
                ==> is_now.agent == AgentKind::Codex
            &&& was.agent != AgentKind::Shell && was.claude_session is Some && was.codex_session is None
                ==> is_now.agent == AgentKind::Claude
            &&& was.agent == AgentKind::Shell || (was.codex_session is Some
                <==> was.claude_session is Some) ==> is_now.agent == match agent_of_title(
                was.label@,
                claude,
            ) {
                Some(agent) => agent,
                None => was.agent,
            }
            &&& is_now.agent != AgentKind::Shell ==> is_now.codex_session == was.codex_session
                && is_now.claude_session == was.claude_session
        }),
        after.docks == before.docks,
        after.language == before.language && after.theme == before.theme,
        forall|id: Id|
            !(#[trigger] after.expanded_workspace_ids@.contains(id))
                && !after.expanded_task_ids@.contains(id),
{
}

/// The application starts on its home page, or on the settings where git is missing;
/// nothing runs, nothing is open and nothing waits. What went wrong is told as an
/// error, and only that.
pub proof fn law_fresh_application(app: BlackholesApp, start: Startup)
    requires
        app.is_fresh(start),
    ensures
        start.git_available ==> app.surface_shown() == Some(crate::effects::SurfaceTarget::Home),
        !start.git_available ==> app.surface_shown() == Some(
            crate::effects::SurfaceTarget::Settings,
        ),
        app.running@.len() == 0 && app.app_toasts@.len() == 0,
        app.active_file is None && app.active_diff is None && app.quick_open is None,
        app.busy is None && app.authentication is None,
        app.status is None <==> start.failures@.len() == 0 && start.tasks is Ok
            && start.workspaces is Ok,
        app.status matches Some(status) ==> status.error,
        start.workspaces matches Ok(records) ==> app.workspaces@ == records@,
        start.tasks matches Ok(records) ==> app.tasks@ == records@,
        start.tasks is Err ==> app.tasks@.len() == 0,
        !app.blocks_update(),
{
}

} // verus!
