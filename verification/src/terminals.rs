//! What is known of the terminals: their state, their agent and their title.
use vstd::prelude::*;
use vstd::string::*;

use crate::app::{agent_name, AppSession, AppToast, AppToastTarget, BlackholesApp};
use crate::clock::{current_time, Time};
use crate::dock::{retitle, retitled};
use crate::effects::Effect;
use crate::ids::{contains_id, Id};
use crate::model::{
    find_task, find_terminal, find_workspace, session_of, task_at, terminal_at, workspace_at,
    AgentKind, ProjectTask, SessionState, TaskSession, TerminalDescriptor,
};
use crate::search::{
    any_where, first_where, lemma_first_where, lemma_first_where_any, position,
};
use crate::text::{blank, is_blank, join2, trim, trimmed};
use crate::titles::{agent_from_terminal_title, agent_of_title, display_title, shown_title};
use crate::toasts::{retain_toasts, terminal_of, without_terminal, ToastFilter};

verus! {

// ---------------------------------------------------------------------------
// What tasks remember of a terminal
// ---------------------------------------------------------------------------
/// The task remembers the terminal.
pub open spec fn remembers(terminal_id: Id) -> spec_fn(ProjectTask) -> bool {
    |task: ProjectTask| any_where(task.sessions@, session_of(terminal_id))
}

/// The first task that remembers the terminal.
pub open spec fn remembering_task(tasks: Seq<ProjectTask>, terminal_id: Id) -> Option<int> {
    first_where(tasks, remembers(terminal_id), 0)
}

/// The first record of the terminal.
pub open spec fn session_at(sessions: Seq<TaskSession>, terminal_id: Id) -> Option<int> {
    first_where(sessions, session_of(terminal_id), 0)
}

/// What changes in the record of a terminal; at a given time, where it matters.
#[derive(Debug)]
pub struct SessionChange {
    pub agent: Option<AgentKind>,
    pub label: Option<String>,
    pub state: Option<SessionState>,
    pub at: Option<Time>,
}

/// A record after a change. An exit is remembered with its time.
pub open spec fn session_changed(before: TaskSession, after: TaskSession, change: SessionChange) -> bool {
    &&& after.agent == match change.agent {
        Some(agent) => agent,
        None => before.agent,
    }
    &&& after.label@ == match change.label {
        Some(label) => label@,
        None => before.label@,
    }
    &&& after.state == match change.state {
        Some(state) => state,
        None => before.state,
    }
    &&& after.updated_at == match change.at {
        Some(at) => at,
        None => before.updated_at,
    }
    &&& after.exited_at == if change.state == Some(SessionState::Exited) && change.at is Some {
        change.at
    } else {
        before.exited_at
    }
    &&& after == (TaskSession {
        agent: after.agent,
        label: after.label,
        state: after.state,
        updated_at: after.updated_at,
        exited_at: after.exited_at,
        ..before
    })
}

/// A task after a change in its record of a terminal.
pub open spec fn task_changed(
    before: ProjectTask,
    after: ProjectTask,
    terminal_id: Id,
    change: SessionChange,
) -> bool {
    let at = session_at(before.sessions@, terminal_id)->0;
    &&& session_changed(before.sessions@[at], after.sessions@[at], change)
    &&& after.sessions@ == before.sessions@.update(at, after.sessions@[at])
    &&& after.updated_at == match change.at {
        Some(at) => at,
        None => before.updated_at,
    }
    &&& after == (ProjectTask {
        sessions: after.sessions,
        updated_at: after.updated_at,
        ..before
    })
}

/// The tasks after a change in the record of a terminal: only the first that
/// remembers it changes.
pub open spec fn tasks_changed(
    before: Seq<ProjectTask>,
    after: Seq<ProjectTask>,
    terminal_id: Id,
    change: SessionChange,
) -> bool {
    match remembering_task(before, terminal_id) {
        None => after == before,
        Some(task) => {
            &&& task_changed(before[task], after[task], terminal_id, change)
            &&& after == before.update(task, after[task])
        },
    }
}

/// The request to write the task that remembers a terminal.
pub open spec fn saves_remembering(tasks: Seq<ProjectTask>, terminal_id: Id) -> Seq<Effect> {
    match remembering_task(tasks, terminal_id) {
        Some(task) => seq![Effect::SaveTask { task_id: tasks[task].id }],
        None => seq![],
    }
}

fn find_session(sessions: &Vec<TaskSession>, terminal_id: Id) -> (result: Option<usize>)
    ensures
        position(result) == session_at(sessions@, terminal_id),
        result matches Some(at) ==> at < sessions@.len(),
{
    let mut index: usize = 0;
    while index < sessions.len()
        invariant
            index <= sessions@.len(),
            session_at(sessions@, terminal_id) == first_where(
                sessions@,
                session_of(terminal_id),
                index as int,
            ),
        decreases sessions@.len() - index,
    {
        if sessions[index].terminal_local_id == terminal_id {
            return Some(index);
        }
        index += 1;
    }
    None
}

fn find_remembering(tasks: &Vec<ProjectTask>, terminal_id: Id) -> (result: Option<(usize, usize)>)
    ensures
        match result {
            Some((task, session)) => {
                &&& remembering_task(tasks@, terminal_id) == Some(task as int)
                &&& session_at(tasks@[task as int].sessions@, terminal_id) == Some(session as int)
                &&& task < tasks@.len()
                &&& session < tasks@[task as int].sessions@.len()
            },
            None => remembering_task(tasks@, terminal_id) is None,
        },
{
    let mut index: usize = 0;
    while index < tasks.len()
        invariant
            index <= tasks@.len(),
            remembering_task(tasks@, terminal_id) == first_where(
                tasks@,
                remembers(terminal_id),
                index as int,
            ),
        decreases tasks@.len() - index,
    {
        proof {
            lemma_first_where_any(tasks@[index as int].sessions@, session_of(terminal_id));
        }
        if let Some(session) = find_session(&tasks[index].sessions, terminal_id) {
            return Some((index, session));
        }
        index += 1;
    }
    None
}

/// Changes the record of a terminal; the task that has it.
pub fn change_session(tasks: &mut Vec<ProjectTask>, terminal_id: Id, change: &SessionChange) -> (result: Option<
    Id,
>)
    ensures
        tasks_changed(old(tasks)@, final(tasks)@, terminal_id, *change),
        result == match remembering_task(old(tasks)@, terminal_id) {
            Some(task) => Some(old(tasks)@[task].id),
            None => None,
        },
{
    let ghost before = tasks@;
    let (task, session): (usize, usize) = match find_remembering(tasks, terminal_id) {
        Some(found) => found,
        None => {
            return None;
        },
    };
    if let Some(agent) = change.agent {
        tasks[task].sessions[session].agent = agent;
    }
    if let Some(label) = &change.label {
        tasks[task].sessions[session].label = label.clone();
    }
    if let Some(state) = change.state {
        tasks[task].sessions[session].state = state;
    }
    if let Some(at) = change.at {
        tasks[task].sessions[session].updated_at = at;
        if change.state == Some(SessionState::Exited) {
            tasks[task].sessions[session].exited_at = Some(at);
        }
        tasks[task].updated_at = at;
    }
    proof {
        let after = tasks@;
        assert(after =~= before.update(task as int, after[task as int]));
        assert(after[task as int].sessions@ =~= before[task as int].sessions@.update(
            session as int,
            after[task as int].sessions@[session as int],
        ));
    }
    Some(tasks[task].id)
}

// ---------------------------------------------------------------------------
// State
// ---------------------------------------------------------------------------
impl BlackholesApp {
    /// The terminals after one of them got another state.
    pub open spec fn terminals_in_state(
        before: Seq<TerminalDescriptor>,
        after: Seq<TerminalDescriptor>,
        terminal_id: Id,
        state: SessionState,
    ) -> bool {
        match terminal_at(before, terminal_id) {
            Some(at) => after == before.update(at, TerminalDescriptor { state, ..before[at] }),
            None => after == before,
        }
    }

    /// `after` is `before` with the state of a terminal noted everywhere. A
    /// terminal that no longer waits for the user has no notification.
    pub open spec fn notes_state_at(
        before: Self,
        after: Self,
        terminal_id: Id,
        state: SessionState,
        now: Time,
    ) -> bool {
        &&& after.app_toasts@ == if state == SessionState::Attention {
            before.app_toasts@
        } else {
            without_terminal(before.app_toasts@, terminal_id)
        }
        &&& Self::terminals_in_state(
            before.session.terminals@,
            after.session.terminals@,
            terminal_id,
            state,
        )
        &&& tasks_changed(
            before.tasks@,
            after.tasks@,
            terminal_id,
            SessionChange { agent: None, label: None, state: Some(state), at: Some(now) },
        )
        &&& after.effects@ == before.effects@ + saves_remembering(before.tasks@, terminal_id)
            + seq![before.persists()]
        &&& after == (BlackholesApp {
            app_toasts: after.app_toasts,
            session: AppSession { terminals: after.session.terminals, ..before.session },
            tasks: after.tasks,
            effects: after.effects,
            ..before
        })
    }

    /// `after` is `before` with the state of a terminal noted at some time.
    pub open spec fn notes_state(before: Self, after: Self, terminal_id: Id, state: SessionState) -> bool {
        exists|now: Time| #[trigger] Self::notes_state_at(before, after, terminal_id, state, now)
    }

    /// Notes the state of a terminal, at a given time.
    pub fn update_terminal_state_at(&mut self, terminal_id: Id, state: SessionState, now: Time)
        ensures
            Self::notes_state_at(*old(self), *final(self), terminal_id, state, now),
    {
        let ghost before = *self;
        if state != SessionState::Attention {
            retain_toasts(&mut self.app_toasts, ToastFilter::NotOfTerminal { terminal_id });
        }
        if let Some(at) = find_terminal(&self.session.terminals, terminal_id) {
            self.session.terminals[at].state = state;
            assert(self.session.terminals@ =~= before.session.terminals@.update(
                at as int,
                TerminalDescriptor { state, ..before.session.terminals@[at as int] },
            ));
        }
        let change = SessionChange { agent: None, label: None, state: Some(state), at: Some(now) };
        let changed = change_session(&mut self.tasks, terminal_id, &change);
        if let Some(task_id) = changed {
            self.emit(Effect::SaveTask { task_id });
        }
        self.persist_session();
        assert(self.effects@ =~= before.effects@ + saves_remembering(before.tasks@, terminal_id)
            + seq![before.persists()]);
    }

    /// Notes the state of a terminal.
    pub fn update_terminal_state(&mut self, terminal_id: Id, state: SessionState)
        ensures
            Self::notes_state(*old(self), *final(self), terminal_id, state),
    {
        let now: Time = current_time();
        self.update_terminal_state_at(terminal_id, state, now);
    }

    // -----------------------------------------------------------------------
    // Agent
    // -----------------------------------------------------------------------
    /// A terminal with another agent: recorded conversations of other agents go.
    pub open spec fn with_agent(terminal: TerminalDescriptor, agent: AgentKind) -> TerminalDescriptor {
        TerminalDescriptor {
            agent,
            codex_session: if agent == AgentKind::Codex {
                terminal.codex_session
            } else {
                None
            },
            claude_session: if agent == AgentKind::Claude {
                terminal.claude_session
            } else {
                None
            },
            ..terminal
        }
    }

    /// `after` is `before` with the agent of a terminal noted.
    pub open spec fn notes_agent(before: Self, after: Self, terminal_id: Id, agent: AgentKind) -> bool {
        let terminals = before.session.terminals@;
        &&& after.session.terminals@ == match terminal_at(terminals, terminal_id) {
            Some(at) => terminals.update(at, Self::with_agent(terminals[at], agent)),
            None => terminals,
        }
        &&& tasks_changed(
            before.tasks@,
            after.tasks@,
            terminal_id,
            SessionChange { agent: Some(agent), label: None, state: None, at: None },
        )
        &&& after == (BlackholesApp {
            session: AppSession { terminals: after.session.terminals, ..before.session },
            tasks: after.tasks,
            ..before
        })
    }

    /// Notes the agent of a terminal.
    pub fn set_terminal_agent(&mut self, terminal_id: Id, agent: AgentKind)
        ensures
            Self::notes_agent(*old(self), *final(self), terminal_id, agent),
    {
        let ghost before = *self;
        if let Some(at) = find_terminal(&self.session.terminals, terminal_id) {
            self.session.terminals[at].agent = agent;
            if agent != AgentKind::Codex {
                self.session.terminals[at].codex_session = None;
            }
            if agent != AgentKind::Claude {
                self.session.terminals[at].claude_session = None;
            }
            assert(self.session.terminals@ =~= before.session.terminals@.update(
                at as int,
                Self::with_agent(before.session.terminals@[at as int], agent),
            ));
        }
        let change = SessionChange { agent: Some(agent), label: None, state: None, at: None };
        let _ = change_session(&mut self.tasks, terminal_id, &change);
    }

    /// A terminal at work that is not known to run an agent.
    pub open spec fn is_live_shell(&self, terminal_id: Id) -> bool {
        exists|i: int|
            0 <= i < self.session.terminals@.len() && (#[trigger] self.session.terminals@[i]).id
                == terminal_id && self.session.terminals@[i].agent == AgentKind::Shell
                && self.session.terminals@[i].state != SessionState::Exited
    }

    fn has_live_shell(&self, terminal_id: Id) -> (result: bool)
        ensures
            result == self.is_live_shell(terminal_id),
    {
        let mut index: usize = 0;
        while index < self.session.terminals.len()
            invariant
                index <= self.session.terminals@.len(),
                forall|i: int|
                    0 <= i < index ==> !((#[trigger] self.session.terminals@[i]).id == terminal_id
                        && self.session.terminals@[i].agent == AgentKind::Shell
                        && self.session.terminals@[i].state != SessionState::Exited),
            decreases self.session.terminals@.len() - index,
        {
            let terminal = &self.session.terminals[index];
            if terminal.id == terminal_id && terminal.agent == AgentKind::Shell && terminal.state
                != SessionState::Exited {
                return true;
            }
            index += 1;
        }
        false
    }

    /// `after` is `before` with the program in front of a terminal looked up,
    /// where it may be an agent that is not known yet.
    pub open spec fn detects_agent(
        before: Self,
        after: Self,
        terminal_id: Id,
        shell_in_front: bool,
    ) -> bool {
        if before.is_live_shell(terminal_id) && !shell_in_front && before.running@.contains(
            terminal_id,
        ) {
            Self::requests(before, after, seq![Effect::DetectForegroundAgent { terminal_id }])
        } else {
            after == before
        }
    }

    /// Asks which program is in front of a terminal, where it may be an agent.
    pub fn detect_foreground_terminal_agent(&mut self, terminal_id: Id, shell_in_front: bool)
        ensures
            Self::detects_agent(*old(self), *final(self), terminal_id, shell_in_front),
    {
        if self.has_live_shell(terminal_id) && !shell_in_front && contains_id(
            &self.running,
            terminal_id,
        ) {
            self.emit(Effect::DetectForegroundAgent { terminal_id });
        }
    }

    /// `after` is `before` with an agent at rest in a terminal.
    pub open spec fn settles_agent(before: Self, after: Self, terminal_id: Id, agent: AgentKind) -> bool {
        exists|noted: BlackholesApp| #[trigger]
            Self::notes_agent(before, noted, terminal_id, agent) && Self::notes_state(
                noted,
                after,
                terminal_id,
                SessionState::Idle,
            )
    }

    fn settle_agent(&mut self, terminal_id: Id, agent: AgentKind)
        ensures
            Self::settles_agent(*old(self), *final(self), terminal_id, agent),
    {
        let ghost before = *self;
        self.set_terminal_agent(terminal_id, agent);
        assert(Self::notes_agent(before, *self, terminal_id, agent));
        self.update_terminal_state(terminal_id, SessionState::Idle);
    }

    /// `after` is `before` once the program in front of a terminal is known to be an
    /// agent. `still_in_front` is whether it is so now; what was learned too late
    /// changes nothing.
    pub open spec fn finds_agent(
        before: Self,
        after: Self,
        terminal_id: Id,
        agent: AgentKind,
        still_in_front: bool,
    ) -> bool {
        if still_in_front && before.running@.contains(terminal_id) && before.is_live_shell(
            terminal_id,
        ) {
            exists|settled: BlackholesApp| #[trigger]
                Self::settles_agent(before, settled, terminal_id, agent) && Self::requests(
                    settled,
                    after,
                    seq![Effect::Redraw],
                )
        } else {
            after == before
        }
    }

    /// The program in front of a terminal is an agent.
    pub fn finish_foreground_detection(
        &mut self,
        terminal_id: Id,
        agent: AgentKind,
        still_in_front: bool,
    )
        ensures
            Self::finds_agent(*old(self), *final(self), terminal_id, agent, still_in_front),
    {
        if still_in_front && contains_id(&self.running, terminal_id) && self.has_live_shell(
            terminal_id,
        ) {
            self.settle_agent(terminal_id, agent);
            self.notify();
        }
    }

    /// An agent is known to run in the terminal.
    pub open spec fn runs_agent(&self, terminal_id: Id) -> bool {
        terminal_at(self.session.terminals@, terminal_id) matches Some(at)
            && self.session.terminals@[at].agent != AgentKind::Shell
            && self.session.terminals@[at].state != SessionState::Exited
    }

    /// `after` is `before` with a terminal back at its shell, where the shell is
    /// in front and an agent was known to run.
    pub open spec fn resets_agent(
        before: Self,
        after: Self,
        terminal_id: Id,
        shell_in_front: bool,
    ) -> bool {
        if shell_in_front && before.runs_agent(terminal_id) {
            exists|inspected: BlackholesApp| #[trigger]
                Self::requests(before, inspected, before.inspects_terminal(terminal_id))
                    && Self::settles_agent(inspected, after, terminal_id, AgentKind::Shell)
        } else {
            after == before
        }
    }

    /// A terminal left the alternate screen. Only where the login shell is in
    /// front again has its agent ended.
    pub fn reset_terminal_agent(&mut self, terminal_id: Id, shell_in_front: bool)
        ensures
            Self::resets_agent(*old(self), *final(self), terminal_id, shell_in_front),
    {
        if !shell_in_front {
            return ;
        }
        let ghost before = *self;
        let running: bool = match find_terminal(&self.session.terminals, terminal_id) {
            Some(at) => self.session.terminals[at].agent != AgentKind::Shell
                && self.session.terminals[at].state != SessionState::Exited,
            None => false,
        };
        if running {
            self.refresh_terminal_repository_git_summary(terminal_id);
            assert(Self::requests(before, *self, before.inspects_terminal(terminal_id)));
            self.settle_agent(terminal_id, AgentKind::Shell);
        }
    }

    // -----------------------------------------------------------------------
    // Attention
    // -----------------------------------------------------------------------
    /// Where a terminal waits: its task, else its project, else its own name.
    pub open spec fn waiting_place(&self, terminal: TerminalDescriptor) -> Seq<char> {
        let task = match terminal.task_id {
            Some(task_id) => task_at(self.tasks@, task_id),
            None => None,
        };
        match (task, workspace_at(self.workspaces@, terminal.workspace_id)) {
            (Some(at), _) => self.tasks@[at].title@,
            (None, Some(at)) => self.workspaces@[at].label@,
            (None, None) => terminal.label@,
        }
    }

    /// There is a notification about the terminal.
    pub open spec fn has_terminal_toast(&self, terminal_id: Id) -> bool {
        exists|i: int|
            0 <= i < self.app_toasts@.len() && terminal_of((#[trigger] self.app_toasts@[i]).target)
                == Some(terminal_id)
    }

    fn shows_terminal_toast(&self, terminal_id: Id) -> (result: bool)
        ensures
            result == self.has_terminal_toast(terminal_id),
    {
        let mut index: usize = 0;
        while index < self.app_toasts.len()
            invariant
                index <= self.app_toasts@.len(),
                forall|i: int|
                    0 <= i < index ==> terminal_of((#[trigger] self.app_toasts@[i]).target) != Some(
                        terminal_id,
                    ),
            decreases self.app_toasts@.len() - index,
        {
            if self.app_toasts[index].target.terminal_id() == Some(terminal_id) {
                return true;
            }
            index += 1;
        }
        false
    }

    /// The notification that a terminal waits for the user.
    pub open spec fn is_attention_toast(&self, terminal: TerminalDescriptor, toast: AppToast) -> bool {
        let name = agent_name(self.agent_labels, terminal.agent);
        &&& toast.target == (AppToastTarget::Terminal {
            terminal_id: terminal.id,
            agent: terminal.agent,
        })
        &&& toast.title@ == name + self.text(" needs your attention"@, " necesita tu atención"@)
        &&& toast.message@ == self.text(
            "Waiting for your response in "@,
            "Esperando tu respuesta en "@,
        ) + self.waiting_place(terminal)
    }

    /// `after` is `before` with the user told that a terminal waits; a terminal
    /// has one notification at most.
    pub open spec fn tells_of_attention(
        before: Self,
        after: Self,
        terminal: TerminalDescriptor,
        result: Option<AppToast>,
    ) -> bool {
        if before.has_terminal_toast(terminal.id) {
            result is None && Self::requests(before, after, seq![Effect::Redraw])
        } else {
            &&& result matches Some(toast) && before.is_attention_toast(terminal, toast)
                && after.app_toasts@ == before.app_toasts@.push(toast)
            &&& after.effects@ == before.effects@ + seq![Effect::Redraw]
            &&& after == (BlackholesApp {
                app_toasts: after.app_toasts,
                effects: after.effects,
                ..before
            })
        }
    }

    /// `after` is `before` with the attention that a terminal asks for: only an
    /// agent asks for any.
    pub open spec fn gets_attention(
        before: Self,
        after: Self,
        terminal_id: Id,
        result: Option<AppToast>,
    ) -> bool {
        match terminal_at(before.session.terminals@, terminal_id) {
            Some(at) if before.session.terminals@[at].agent != AgentKind::Shell => exists|
                inspected: BlackholesApp,
                noted: BlackholesApp,
            |
                {
                    &&& #[trigger] Self::requests(
                        before,
                        inspected,
                        before.inspects_terminal(terminal_id),
                    )
                    &&& #[trigger] Self::notes_state(
                        inspected,
                        noted,
                        terminal_id,
                        SessionState::Attention,
                    )
                    &&& Self::tells_of_attention(
                        noted,
                        after,
                        before.session.terminals@[at],
                        result,
                    )
                },
            _ => result is None && after == before,
        }
    }

    fn tell_of_attention(
        &mut self,
        terminal_id: Id,
        agent: AgentKind,
        place: String,
    ) -> (result: Option<AppToast>)
        ensures
            if old(self).has_terminal_toast(terminal_id) {
                result is None && Self::requests(*old(self), *final(self), seq![Effect::Redraw])
            } else {
                &&& result matches Some(toast) && {
                    &&& toast.target == (AppToastTarget::Terminal { terminal_id, agent })
                    &&& toast.title@ == agent_name(old(self).agent_labels, agent) + old(self).text(
                        " needs your attention"@,
                        " necesita tu atención"@,
                    )
                    &&& toast.message@ == old(self).text(
                        "Waiting for your response in "@,
                        "Esperando tu respuesta en "@,
                    ) + place@
                    &&& final(self).app_toasts@ == old(self).app_toasts@.push(toast)
                }
                &&& final(self).effects@ == old(self).effects@ + seq![Effect::Redraw]
                &&& *final(self) == (BlackholesApp {
                    app_toasts: final(self).app_toasts,
                    effects: final(self).effects,
                    ..*old(self)
                })
            },
    {
        if self.shows_terminal_toast(terminal_id) {
            self.notify();
            return None;
        }
        let title = join2(
            self.agent_labels.label(agent),
            self.tr(" needs your attention", " necesita tu atención"),
        );
        let message = join2(
            self.tr("Waiting for your response in ", "Esperando tu respuesta en "),
            place.as_str(),
        );
        let toast = AppToast {
            target: AppToastTarget::Terminal { terminal_id, agent },
            title,
            message,
        };
        let shown = toast.duplicate();
        self.app_toasts.push(toast);
        self.notify();
        Some(shown)
    }

    fn place_of_terminal(&self, at: usize) -> (result: String)
        requires
            at < self.session.terminals@.len(),
        ensures
            result@ == self.waiting_place(self.session.terminals@[at as int]),
    {
        let terminal = &self.session.terminals[at];
        if let Some(task_id) = terminal.task_id {
            if let Some(task) = find_task(&self.tasks, task_id) {
                return self.tasks[task].title.clone();
            }
        }
        match find_workspace(&self.workspaces, terminal.workspace_id) {
            Some(workspace) => self.workspaces[workspace].label.clone(),
            None => terminal.label.clone(),
        }
    }

    /// A terminal asks for attention. The notification is handed back for the
    /// desktop, unless there is one already.
    pub fn handle_agent_attention(&mut self, terminal_id: Id) -> (result: Option<AppToast>)
        ensures
            Self::gets_attention(*old(self), *final(self), terminal_id, result),
    {
        let ghost before = *self;
        let at: usize = match find_terminal(&self.session.terminals, terminal_id) {
            Some(at) => at,
            None => {
                return None;
            },
        };
        let agent = self.session.terminals[at].agent;
        if agent == AgentKind::Shell {
            return None;
        }
        proof {
            lemma_first_where(
                before.session.terminals@,
                crate::model::terminal_is(terminal_id),
                0,
            );
        }
        let place = self.place_of_terminal(at);
        self.refresh_terminal_repository_git_summary(terminal_id);
        let ghost inspected = *self;
        assert(Self::requests(before, inspected, before.inspects_terminal(terminal_id)));
        self.update_terminal_state(terminal_id, SessionState::Attention);
        let ghost noted = *self;
        assert(Self::notes_state(inspected, noted, terminal_id, SessionState::Attention));
        proof {
            lemma_place_kept(inspected, noted, terminal_id, before.session.terminals@[at as int]);
        }
        let result = self.tell_of_attention(terminal_id, agent, place);
        assert(Self::tells_of_attention(
            noted,
            *self,
            before.session.terminals@[at as int],
            result,
        ));
        result
    }
}

/// Noting the state of a terminal changes no title and no name.
proof fn lemma_place_kept(
    before: BlackholesApp,
    after: BlackholesApp,
    terminal_id: Id,
    terminal: TerminalDescriptor,
)
    requires
        BlackholesApp::notes_state(before, after, terminal_id, SessionState::Attention),
    ensures
        after.waiting_place(terminal) == before.waiting_place(terminal),
        after.agent_labels == before.agent_labels,
        after.session.language == before.session.language,
{
    if let Some(task_id) = terminal.task_id {
        lemma_task_found_again(before.tasks@, after.tasks@, terminal_id, task_id, 0);
        lemma_first_where(before.tasks@, crate::model::task_is(task_id), 0);
    }
}

/// A change in the record of a terminal moves no task and changes no title.
proof fn lemma_task_found_again(
    before: Seq<ProjectTask>,
    after: Seq<ProjectTask>,
    terminal_id: Id,
    task_id: Id,
    from: int,
)
    requires
        exists|change: SessionChange| #[trigger] tasks_changed(before, after, terminal_id, change),
        0 <= from,
    ensures
        after.len() == before.len(),
        first_where(after, crate::model::task_is(task_id), from) == first_where(
            before,
            crate::model::task_is(task_id),
            from,
        ),
        forall|i: int|
            0 <= i < before.len() ==> (#[trigger] after[i]).title == before[i].title && after[i].id
                == before[i].id,
    decreases before.len() - from,
{
    lemma_first_where(before, remembers(terminal_id), 0);
    if from < before.len() {
        lemma_task_found_again(before, after, terminal_id, task_id, from + 1);
    }
}

// ---------------------------------------------------------------------------
// Signals
// ---------------------------------------------------------------------------
#[derive(Clone, Copy, Debug, PartialEq, Eq, Structural)]
pub enum AgentTerminalSignalKind {
    Started,
    Working,
    Attention,
}

/// What an agent reports through its terminal.
#[derive(Clone, Copy, Debug, PartialEq, Eq, Structural)]
pub struct AgentTerminalSignal {
    pub agent: Option<AgentKind>,
    pub kind: AgentTerminalSignalKind,
}

impl BlackholesApp {
    /// `after` is `before` with the agent of a signal noted, where it names one.
    pub open spec fn notes_signal_agent(
        before: Self,
        after: Self,
        terminal_id: Id,
        agent: Option<AgentKind>,
    ) -> bool {
        match agent {
            Some(agent) => Self::notes_agent(before, after, terminal_id, agent),
            None => after == before,
        }
    }

    /// The terminal is known and is no mere shell.
    pub open spec fn is_agent_terminal(&self, terminal_id: Id) -> bool {
        terminal_at(self.session.terminals@, terminal_id) matches Some(at)
            && self.session.terminals@[at].agent != AgentKind::Shell
    }

    /// `after` is `before` with what an agent reported taken in.
    pub open spec fn takes_signal(
        before: Self,
        after: Self,
        terminal_id: Id,
        kind: AgentTerminalSignalKind,
        result: Option<AppToast>,
    ) -> bool {
        if !before.is_agent_terminal(terminal_id) {
            result is None && after == before
        } else {
            match kind {
                AgentTerminalSignalKind::Started => result is None && Self::notes_and_draws(
                    before,
                    after,
                    terminal_id,
                    SessionState::Idle,
                ),
                AgentTerminalSignalKind::Working => result is None && Self::notes_and_draws(
                    before,
                    after,
                    terminal_id,
                    SessionState::Working,
                ),
                AgentTerminalSignalKind::Attention => Self::gets_attention(
                    before,
                    after,
                    terminal_id,
                    result,
                ),
            }
        }
    }

    /// `after` is `before` with the state of a terminal noted and the window drawn.
    pub open spec fn notes_and_draws(before: Self, after: Self, terminal_id: Id, state: SessionState) -> bool {
        exists|noted: BlackholesApp| #[trigger]
            Self::notes_state(before, noted, terminal_id, state) && Self::requests(
                noted,
                after,
                seq![Effect::Redraw],
            )
    }

    pub(crate) fn note_and_draw(&mut self, terminal_id: Id, state: SessionState)
        ensures
            Self::notes_and_draws(*old(self), *final(self), terminal_id, state),
    {
        let ghost before = *self;
        self.update_terminal_state(terminal_id, state);
        assert(Self::notes_state(before, *self, terminal_id, state));
        self.notify();
    }

    /// `after` is `before` with what an agent reported through its terminal taken in,
    /// and the agent that it names noted.
    pub open spec fn hears_signal(
        before: Self,
        after: Self,
        terminal_id: Id,
        signal: AgentTerminalSignal,
        result: Option<AppToast>,
    ) -> bool {
        exists|noted: BlackholesApp| #[trigger]
            Self::notes_signal_agent(before, noted, terminal_id, signal.agent)
                && Self::takes_signal(noted, after, terminal_id, signal.kind, result)
    }

    /// An agent reported something through its terminal.
    pub fn handle_agent_signal(&mut self, terminal_id: Id, signal: AgentTerminalSignal) -> (result:
        Option<AppToast>)
        ensures
            Self::hears_signal(*old(self), *final(self), terminal_id, signal, result),
    {
        let ghost before = *self;
        if let Some(agent) = signal.agent {
            self.set_terminal_agent(terminal_id, agent);
        }
        let ghost noted = *self;
        assert(Self::notes_signal_agent(before, noted, terminal_id, signal.agent));
        let agent: bool = match find_terminal(&self.session.terminals, terminal_id) {
            Some(at) => self.session.terminals[at].agent != AgentKind::Shell,
            None => false,
        };
        if !agent {
            assert(Self::takes_signal(noted, *self, terminal_id, signal.kind, None));
            return None;
        }
        let result = match signal.kind {
            AgentTerminalSignalKind::Started => {
                self.note_and_draw(terminal_id, SessionState::Idle);
                None
            },
            AgentTerminalSignalKind::Working => {
                self.note_and_draw(terminal_id, SessionState::Working);
                None
            },
            AgentTerminalSignalKind::Attention => self.handle_agent_attention(terminal_id),
        };
        assert(Self::takes_signal(noted, *self, terminal_id, signal.kind, result));
        result
    }
}

// ---------------------------------------------------------------------------
// Titles and screens
// ---------------------------------------------------------------------------
impl BlackholesApp {
    /// The agent that a title shows: the one it names, or none where the shell
    /// is in front. Any other title says nothing.
    pub open spec fn titled_agent(&self, title: Seq<char>, shell_in_front: bool) -> Option<AgentKind> {
        match agent_of_title(title, self.agent_labels.claude_name@) {
            Some(agent) => Some(agent),
            None => if shell_in_front {
                Some(AgentKind::Shell)
            } else {
                None
            },
        }
    }

    /// The title shows another agent than the one known.
    pub open spec fn changed_agent(&self, terminal_id: Id, title: Seq<char>, shell_in_front: bool) -> Option<
        AgentKind,
    > {
        match (
            terminal_at(self.session.terminals@, terminal_id),
            self.titled_agent(title, shell_in_front),
        ) {
            (Some(at), Some(agent)) if self.session.terminals@[at].agent != agent => Some(agent),
            _ => None,
        }
    }

    /// The terminals after one of them got another title, and with it maybe
    /// another agent.
    pub open spec fn terminals_titled(
        before: Seq<TerminalDescriptor>,
        after: Seq<TerminalDescriptor>,
        terminal_id: Id,
        title: Seq<char>,
        agent: Option<AgentKind>,
    ) -> bool {
        match terminal_at(before, terminal_id) {
            None => after == before,
            Some(at) => {
                &&& after[at].label@ == title
                &&& after[at] == (TerminalDescriptor {
                    label: after[at].label,
                    agent: match agent {
                        Some(agent) => agent,
                        None => before[at].agent,
                    },
                    state: match agent {
                        Some(_) => SessionState::Idle,
                        None => before[at].state,
                    },
                    ..before[at]
                })
                &&& after == before.update(at, after[at])
            },
        }
    }

    /// `after` is `before` with the title of a terminal on the terminal and its
    /// tabs, and the agent it shows noted.
    pub open spec fn titles_at(
        before: Self,
        after: Self,
        terminal_id: Id,
        title: Seq<char>,
        shell_in_front: bool,
        now: Time,
    ) -> bool {
        let agent = before.changed_agent(terminal_id, title, shell_in_front);
        let shown = shown_title(title);
        &&& Self::terminals_titled(
            before.session.terminals@,
            after.session.terminals@,
            terminal_id,
            shown,
            agent,
        )
        &&& retitled(before.session.docks@, after.session.docks@, terminal_id, shown)
        &&& after.app_toasts@ == if agent == Some(AgentKind::Shell) {
            without_terminal(before.app_toasts@, terminal_id)
        } else {
            before.app_toasts@
        }
        &&& match agent {
            Some(_) => {
                &&& exists|label: String|
                    #![trigger label@]
                    label@ == shown && tasks_changed(
                        before.tasks@,
                        after.tasks@,
                        terminal_id,
                        SessionChange {
                            agent,
                            label: Some(label),
                            state: Some(SessionState::Idle),
                            at: Some(now),
                        },
                    )
                &&& after.effects@ == before.effects@ + saves_remembering(
                    before.tasks@,
                    terminal_id,
                ) + seq![before.persists()]
            },
            None => after.tasks@ == before.tasks@ && after.effects@ == before.effects@,
        }
        &&& after == (BlackholesApp {
            session: AppSession {
                terminals: after.session.terminals,
                docks: after.session.docks,
                ..before.session
            },
            app_toasts: after.app_toasts,
            tasks: after.tasks,
            effects: after.effects,
            ..before
        })
    }

    /// `after` is `before` with the title of a terminal taken in at some time.
    pub open spec fn titles(
        before: Self,
        after: Self,
        terminal_id: Id,
        title: Seq<char>,
        shell_in_front: bool,
    ) -> bool {
        exists|now: Time| #[trigger]
            Self::titles_at(before, after, terminal_id, title, shell_in_front, now)
    }

    /// The title of a terminal changed, at a given time.
    pub fn update_terminal_title_at(
        &mut self,
        terminal_id: Id,
        title: &str,
        shell_in_front: bool,
        now: Time,
    )
        ensures
            Self::titles_at(
                *old(self),
                *final(self),
                terminal_id,
                title@,
                shell_in_front,
                now,
            ),
    {
        let ghost before = *self;
        let named: Option<AgentKind> = agent_from_terminal_title(
            title,
            self.agent_labels.claude_name.as_str(),
        );
        let detected: Option<AgentKind> = match named {
            Some(agent) => Some(agent),
            None => if shell_in_front {
                Some(AgentKind::Shell)
            } else {
                None
            },
        };
        let shown = display_title(title);
        let mut changed: Option<AgentKind> = None;
        if let Some(at) = find_terminal(&self.session.terminals, terminal_id) {
            self.session.terminals[at].label = shown.clone();
            if let Some(agent) = detected {
                if self.session.terminals[at].agent != agent {
                    self.session.terminals[at].agent = agent;
                    self.session.terminals[at].state = SessionState::Idle;
                    changed = Some(agent);
                }
            }
            assert(self.session.terminals@ =~= before.session.terminals@.update(
                at as int,
                self.session.terminals@[at as int],
            ));
        }
        assert(changed == before.changed_agent(terminal_id, title@, shell_in_front));
        retitle(&mut self.session.docks, terminal_id, shown.as_str());
        if let Some(agent) = changed {
            if agent == AgentKind::Shell {
                retain_toasts(&mut self.app_toasts, ToastFilter::NotOfTerminal { terminal_id });
            }
            let change = SessionChange {
                agent: Some(agent),
                label: Some(shown),
                state: Some(SessionState::Idle),
                at: Some(now),
            };
            let saved = change_session(&mut self.tasks, terminal_id, &change);
            if let Some(task_id) = saved {
                self.emit(Effect::SaveTask { task_id });
            }
            self.persist_session();
            assert(self.effects@ =~= before.effects@ + saves_remembering(
                before.tasks@,
                terminal_id,
            ) + seq![before.persists()]);
        }
    }

    /// The title of a terminal changed.
    pub fn update_terminal_title(&mut self, terminal_id: Id, title: &str, shell_in_front: bool)
        ensures
            Self::titles(*old(self), *final(self), terminal_id, title@, shell_in_front),
    {
        let now: Time = current_time();
        self.update_terminal_title_at(terminal_id, title, shell_in_front, now);
    }

    /// A terminal reported a title. A blank one says nothing.
    pub fn terminal_title_changed(&mut self, terminal_id: Id, title: &str, shell_in_front: bool)
        ensures
            if is_blank(title@) {
                *final(self) == *old(self)
            } else {
                exists|titled: BlackholesApp, detected: BlackholesApp| #[trigger]
                    Self::titles(
                        *old(self),
                        titled,
                        terminal_id,
                        trimmed(title@),
                        shell_in_front,
                    ) && #[trigger] Self::detects_agent(
                        titled,
                        detected,
                        terminal_id,
                        shell_in_front,
                    ) && Self::requests(detected, *final(self), seq![Effect::Redraw])
            },
    {
        if blank(title) {
            return ;
        }
        let ghost before = *self;
        let title = trim(title);
        self.update_terminal_title(terminal_id, title.as_str(), shell_in_front);
        let ghost titled = *self;
        assert(Self::titles(before, titled, terminal_id, title@, shell_in_front));
        self.detect_foreground_terminal_agent(terminal_id, shell_in_front);
        assert(Self::detects_agent(titled, *self, terminal_id, shell_in_front));
        self.notify();
    }

    /// `after` is `before` with a change of screen taken in.
    pub open spec fn switches_screen(
        before: Self,
        after: Self,
        terminal_id: Id,
        alternate: bool,
        shell_in_front: bool,
    ) -> bool {
        if alternate {
            Self::detects_agent(before, after, terminal_id, shell_in_front)
        } else {
            Self::resets_agent(before, after, terminal_id, shell_in_front)
        }
    }

    /// A terminal changed between its main and its alternate screen.
    pub fn terminal_screen_changed(
        &mut self,
        terminal_id: Id,
        alternate: bool,
        shell_in_front: bool,
    )
        ensures
            exists|switched: BlackholesApp| #[trigger]
                Self::switches_screen(
                    *old(self),
                    switched,
                    terminal_id,
                    alternate,
                    shell_in_front,
                ) && Self::requests(switched, *final(self), seq![Effect::Redraw]),
    {
        let ghost before = *self;
        if alternate {
            self.detect_foreground_terminal_agent(terminal_id, shell_in_front);
        } else {
            self.reset_terminal_agent(terminal_id, shell_in_front);
        }
        assert(Self::switches_screen(before, *self, terminal_id, alternate, shell_in_front));
        self.notify();
    }

    /// `after` is `before` with the process of a terminal ended.
    pub open spec fn exits(before: Self, after: Self, terminal_id: Id) -> bool {
        exists|inspected: BlackholesApp| #[trigger]
            Self::requests(before, inspected, before.inspects_terminal(terminal_id))
                && Self::notes_and_draws(inspected, after, terminal_id, SessionState::Exited)
    }

    /// The process of a terminal ended.
    pub fn terminal_exited(&mut self, terminal_id: Id)
        ensures
            Self::exits(*old(self), *final(self), terminal_id),
    {
        let ghost before = *self;
        self.refresh_terminal_repository_git_summary(terminal_id);
        assert(Self::requests(before, *self, before.inspects_terminal(terminal_id)));
        self.note_and_draw(terminal_id, SessionState::Exited);
    }
}

/// A title that names no agent says nothing about the one that is known: every
/// terminal keeps its agent and its state until the shell is in front again.
pub proof fn law_title_keeps_agent(
    before: BlackholesApp,
    after: BlackholesApp,
    terminal_id: Id,
    title: Seq<char>,
)
    requires
        BlackholesApp::titles(before, after, terminal_id, title, false),
        agent_of_title(title, before.agent_labels.claude_name@) is None,
    ensures
        after.session.terminals@.len() == before.session.terminals@.len(),
        forall|i: int|
            0 <= i < after.session.terminals@.len() ==> {
                &&& (#[trigger] after.session.terminals@[i]).id == before.session.terminals@[i].id
                &&& after.session.terminals@[i].agent == before.session.terminals@[i].agent
                &&& after.session.terminals@[i].state == before.session.terminals@[i].state
            },
        after.tasks@ == before.tasks@,
{
    lemma_first_where(before.session.terminals@, crate::model::terminal_is(terminal_id), 0);
}

/// A change of screen says nothing about the agent of a terminal either, until
/// the shell is in front again.
pub proof fn law_screen_keeps_agent(
    before: BlackholesApp,
    after: BlackholesApp,
    terminal_id: Id,
    alternate: bool,
)
    requires
        BlackholesApp::switches_screen(before, after, terminal_id, alternate, false),
    ensures
        after.session == before.session,
        after.tasks == before.tasks,
{
}

// ---------------------------------------------------------------------------
// What is known everywhere
// ---------------------------------------------------------------------------
/// The terminal stands at the position and nowhere else.
pub open spec fn stands_at(terminals: Seq<TerminalDescriptor>, terminal_id: Id, at: int) -> bool {
    &&& 0 <= at < terminals.len()
    &&& terminals[at].id == terminal_id
    &&& forall|i: int| 0 <= i < terminals.len() && i != at ==> (#[trigger] terminals[i]).id != terminal_id
}

/// The record of the terminal is the one at the position in the task, and there is no
/// other.
pub open spec fn recorded_at(tasks: Seq<ProjectTask>, terminal_id: Id, task: int, at: int) -> bool {
    &&& 0 <= task < tasks.len()
    &&& 0 <= at < tasks[task].sessions@.len()
    &&& tasks[task].sessions@[at].terminal_local_id == terminal_id
    &&& forall|i: int, j: int|
        0 <= i < tasks.len() && 0 <= j < tasks[i].sessions@.len() && (i != task || j != at)
            ==> (#[trigger] tasks[i].sessions@[j]).terminal_local_id != terminal_id
}

proof fn lemma_stands(terminals: Seq<TerminalDescriptor>, terminal_id: Id, at: int)
    requires
        stands_at(terminals, terminal_id, at),
    ensures
        terminal_at(terminals, terminal_id) == Some(at),
{
    lemma_first_where(terminals, crate::model::terminal_is(terminal_id), 0);
    assert(crate::model::terminal_is(terminal_id)(terminals[at]));
}

proof fn lemma_recorded(tasks: Seq<ProjectTask>, terminal_id: Id, task: int, at: int)
    requires
        recorded_at(tasks, terminal_id, task, at),
    ensures
        remembering_task(tasks, terminal_id) == Some(task),
        session_at(tasks[task].sessions@, terminal_id) == Some(at),
{
    let sessions = tasks[task].sessions@;
    lemma_first_where(sessions, session_of(terminal_id), 0);
    assert(session_of(terminal_id)(sessions[at]));
    lemma_first_where(tasks, remembers(terminal_id), 0);
    assert(remembers(terminal_id)(tasks[task]));
    let found = remembering_task(tasks, terminal_id)->0;
    if found != task {
        assert(remembers(terminal_id)(tasks[found]));
        let j = choose|j: int|
            0 <= j < tasks[found].sessions@.len() && session_of(terminal_id)(
                #[trigger] tasks[found].sessions@[j],
            );
        assert(tasks[found].sessions@[j].terminal_local_id == terminal_id);
    }
}

/// The state of a terminal is on the terminal and in the record of its task, with the
/// time; an exit is remembered as one. Both are written. No other terminal and no
/// other task changes, and the terminal keeps its agent and its name.
pub proof fn law_state_noted(
    before: BlackholesApp,
    after: BlackholesApp,
    terminal_id: Id,
    state: SessionState,
    now: Time,
    at: int,
    task: int,
    record: int,
)
    requires
        BlackholesApp::notes_state_at(before, after, terminal_id, state, now),
        stands_at(before.session.terminals@, terminal_id, at),
        recorded_at(before.tasks@, terminal_id, task, record),
    ensures
        after.session.terminals@.len() == before.session.terminals@.len(),
        after.session.terminals@[at].state == state,
        after.session.terminals@[at].agent == before.session.terminals@[at].agent,
        after.session.terminals@[at].label == before.session.terminals@[at].label,
        after.session.terminals@[at].id == terminal_id,
        forall|i: int|
            0 <= i < after.session.terminals@.len() && i != at
                ==> #[trigger] after.session.terminals@[i] == before.session.terminals@[i],
        after.tasks@.len() == before.tasks@.len(),
        after.tasks@[task].sessions@[record].state == state,
        after.tasks@[task].sessions@[record].updated_at == now,
        after.tasks@[task].sessions@[record].exited_at == if state == SessionState::Exited {
            Some(now)
        } else {
            before.tasks@[task].sessions@[record].exited_at
        },
        after.tasks@[task].updated_at == now,
        after.tasks@[task].title == before.tasks@[task].title,
        forall|i: int|
            0 <= i < after.tasks@.len() && i != task ==> #[trigger] after.tasks@[i]
                == before.tasks@[i],
        BlackholesApp::asked(before, after).contains(
            Effect::SaveTask { task_id: before.tasks@[task].id },
        ),
        exists|i: int|
            0 <= i < BlackholesApp::asked(before, after).len() && (
            #[trigger] BlackholesApp::asked(before, after)[i]) is PersistSession,
{
    lemma_stands(before.session.terminals@, terminal_id, at);
    lemma_recorded(before.tasks@, terminal_id, task, record);
    assert(BlackholesApp::asked(before, after)[0] is SaveTask);
    assert(BlackholesApp::asked(before, after)[1] is PersistSession);
}

/// A terminal that no longer waits for the user has no notification; the others keep
/// theirs.
pub proof fn law_attention_over(
    before: BlackholesApp,
    after: BlackholesApp,
    terminal_id: Id,
    state: SessionState,
)
    requires
        BlackholesApp::notes_state(before, after, terminal_id, state),
    ensures
        state != SessionState::Attention ==> forall|i: int|
            0 <= i < after.app_toasts@.len() ==> !((#[trigger] after.app_toasts@[i]).target matches
            AppToastTarget::Terminal { terminal_id: id, .. } && id == terminal_id),
        forall|i: int|
            0 <= i < before.app_toasts@.len() && !((#[trigger] before.app_toasts@[i]).target matches
            AppToastTarget::Terminal { terminal_id: id, .. } && id == terminal_id)
                ==> after.app_toasts@.contains(before.app_toasts@[i]),
        state == SessionState::Attention ==> after.app_toasts@ == before.app_toasts@,
        after.session.docks == before.session.docks,
        after.session.selected_task_id == before.session.selected_task_id,
        after.surface == before.surface,
{
    let now = choose|now: Time| #[trigger]
        BlackholesApp::notes_state_at(before, after, terminal_id, state, now);
    assert(BlackholesApp::notes_state_at(before, after, terminal_id, state, now));
    let keep = crate::toasts::stays(ToastFilter::NotOfTerminal { terminal_id });
    if state != SessionState::Attention {
        assert forall|i: int| 0 <= i < after.app_toasts@.len() implies !((
        #[trigger] after.app_toasts@[i]).target matches AppToastTarget::Terminal {
            terminal_id: id,
            ..
        } && id == terminal_id) by {
            before.app_toasts@.lemma_filter_pred(keep, i);
        }
        assert forall|i: int|
            0 <= i < before.app_toasts@.len() && !((#[trigger] before.app_toasts@[i]).target matches
            AppToastTarget::Terminal { terminal_id: id, .. } && id == terminal_id) implies
            after.app_toasts@.contains(before.app_toasts@[i]) by {
            before.app_toasts@.lemma_filter_contains(keep, i);
        }
    } else {
        assert(after.app_toasts@ == before.app_toasts@);
    }
}

/// The agent of a terminal is on the terminal and in the record of its task. What was
/// recorded of the conversation of another agent is forgotten.
pub proof fn law_agent_noted(
    before: BlackholesApp,
    after: BlackholesApp,
    terminal_id: Id,
    agent: AgentKind,
    at: int,
    task: int,
    record: int,
)
    requires
        BlackholesApp::notes_agent(before, after, terminal_id, agent),
        stands_at(before.session.terminals@, terminal_id, at),
        recorded_at(before.tasks@, terminal_id, task, record),
    ensures
        after.session.terminals@[at].agent == agent,
        after.session.terminals@[at].state == before.session.terminals@[at].state,
        after.session.terminals@[at].id == terminal_id,
        agent == AgentKind::Codex ==> after.session.terminals@[at].codex_session
            == before.session.terminals@[at].codex_session,
        agent != AgentKind::Codex ==> after.session.terminals@[at].codex_session is None,
        agent == AgentKind::Claude ==> after.session.terminals@[at].claude_session
            == before.session.terminals@[at].claude_session,
        agent != AgentKind::Claude ==> after.session.terminals@[at].claude_session is None,
        after.tasks@[task].sessions@[record].agent == agent,
        after.tasks@[task].sessions@[record].state == before.tasks@[task].sessions@[record].state,
        forall|i: int|
            0 <= i < after.session.terminals@.len() && i != at
                ==> #[trigger] after.session.terminals@[i] == before.session.terminals@[i],
        forall|i: int|
            0 <= i < after.tasks@.len() && i != task ==> #[trigger] after.tasks@[i]
                == before.tasks@[i],
        after.session.terminals@.len() == before.session.terminals@.len(),
        after.tasks@.len() == before.tasks@.len(),
{
    lemma_stands(before.session.terminals@, terminal_id, at);
    lemma_recorded(before.tasks@, terminal_id, task, record);
}

/// Noting the state of a terminal keeps where it stands.
proof fn lemma_still_stands(
    before: BlackholesApp,
    after: BlackholesApp,
    terminal_id: Id,
    state: SessionState,
    at: int,
)
    requires
        BlackholesApp::notes_state(before, after, terminal_id, state),
        stands_at(before.session.terminals@, terminal_id, at),
    ensures
        stands_at(after.session.terminals@, terminal_id, at),
        after.session.terminals@[at].state == state,
        after.session.terminals@[at].agent == before.session.terminals@[at].agent,
{
    let now = choose|now: Time| #[trigger]
        BlackholesApp::notes_state_at(before, after, terminal_id, state, now);
    assert(BlackholesApp::notes_state_at(before, after, terminal_id, state, now));
    lemma_stands(before.session.terminals@, terminal_id, at);
}

/// An agent that asks for attention waits, and the user has a notification of it,
/// which is handed on only where there was none. A shell asks for nothing.
pub proof fn law_attention_told(
    before: BlackholesApp,
    after: BlackholesApp,
    terminal_id: Id,
    result: Option<AppToast>,
    at: int,
)
    requires
        BlackholesApp::gets_attention(before, after, terminal_id, result),
        stands_at(before.session.terminals@, terminal_id, at),
    ensures
        before.session.terminals@[at].agent == AgentKind::Shell ==> after == before && result is None,
        before.session.terminals@[at].agent != AgentKind::Shell ==> {
            &&& after.session.terminals@[at].state == SessionState::Attention
            &&& exists|i: int|
                0 <= i < after.app_toasts@.len() && ((#[trigger] after.app_toasts@[i]).target matches
                AppToastTarget::Terminal { terminal_id: id, .. } && id == terminal_id)
            &&& result is None <==> exists|i: int|
                0 <= i < before.app_toasts@.len() && ((#[trigger] before.app_toasts@[i]).target matches
                AppToastTarget::Terminal { terminal_id: id, .. } && id == terminal_id)
            &&& result matches Some(toast) ==> after.app_toasts@ == before.app_toasts@.push(toast)
            &&& result is None ==> after.app_toasts@ == before.app_toasts@
        },
{
    lemma_stands(before.session.terminals@, terminal_id, at);
    if before.session.terminals@[at].agent != AgentKind::Shell {
        let (inspected, noted) = choose|inspected: BlackholesApp, noted: BlackholesApp|
            {
                &&& #[trigger] BlackholesApp::requests(
                    before,
                    inspected,
                    before.inspects_terminal(terminal_id),
                )
                &&& #[trigger] BlackholesApp::notes_state(
                    inspected,
                    noted,
                    terminal_id,
                    SessionState::Attention,
                )
                &&& BlackholesApp::tells_of_attention(
                    noted,
                    after,
                    before.session.terminals@[at],
                    result,
                )
            };
        lemma_still_stands(inspected, noted, terminal_id, SessionState::Attention, at);
        law_attention_over(inspected, noted, terminal_id, SessionState::Attention);
        assert(noted.app_toasts@ == before.app_toasts@);
        if noted.has_terminal_toast(terminal_id) {
            let i = choose|i: int|
                0 <= i < noted.app_toasts@.len() && terminal_of(
                    (#[trigger] noted.app_toasts@[i]).target,
                ) == Some(terminal_id);
            assert(before.app_toasts@[i].target is Terminal);
            assert(after.app_toasts@[i] == before.app_toasts@[i]);
        } else {
            assert(after.app_toasts@.last() == result->0);
            assert(after.app_toasts@[before.app_toasts@.len() as int].target is Terminal);
            assert forall|i: int| 0 <= i < before.app_toasts@.len() implies !((
            #[trigger] before.app_toasts@[i]).target matches AppToastTarget::Terminal {
                terminal_id: id,
                ..
            } && id == terminal_id) by {
                assert(noted.app_toasts@[i] == before.app_toasts@[i]);
            }
        }
    }
}

/// An agent that starts is at rest, one that works is at work, and one that asks for
/// attention waits. A signal that names the agent makes the terminal one of it.
pub proof fn law_signal_heard(
    before: BlackholesApp,
    after: BlackholesApp,
    terminal_id: Id,
    signal: AgentTerminalSignal,
    result: Option<AppToast>,
    at: int,
)
    requires
        BlackholesApp::hears_signal(before, after, terminal_id, signal, result),
        stands_at(before.session.terminals@, terminal_id, at),
        signal.agent != Some(AgentKind::Shell),
        signal.agent is Some || before.session.terminals@[at].agent != AgentKind::Shell,
    ensures
        after.session.terminals@[at].state == match signal.kind {
            AgentTerminalSignalKind::Started => SessionState::Idle,
            AgentTerminalSignalKind::Working => SessionState::Working,
            AgentTerminalSignalKind::Attention => SessionState::Attention,
        },
        after.session.terminals@[at].agent == match signal.agent {
            Some(agent) => agent,
            None => before.session.terminals@[at].agent,
        },
        result is Some ==> signal.kind == AgentTerminalSignalKind::Attention,
        after.effects@.last() == Effect::Redraw,
{
    let noted = choose|noted: BlackholesApp| #[trigger]
        BlackholesApp::notes_signal_agent(before, noted, terminal_id, signal.agent)
            && BlackholesApp::takes_signal(noted, after, terminal_id, signal.kind, result);
    lemma_stands(before.session.terminals@, terminal_id, at);
    assert(stands_at(noted.session.terminals@, terminal_id, at));
    lemma_stands(noted.session.terminals@, terminal_id, at);
    match signal.kind {
        AgentTerminalSignalKind::Attention => {
            let (inspected, told) = choose|inspected: BlackholesApp, told: BlackholesApp|
                {
                    &&& #[trigger] BlackholesApp::requests(
                        noted,
                        inspected,
                        noted.inspects_terminal(terminal_id),
                    )
                    &&& #[trigger] BlackholesApp::notes_state(
                        inspected,
                        told,
                        terminal_id,
                        SessionState::Attention,
                    )
                    &&& BlackholesApp::tells_of_attention(
                        told,
                        after,
                        noted.session.terminals@[at],
                        result,
                    )
                };
            lemma_still_stands(inspected, told, terminal_id, SessionState::Attention, at);
        },
        _ => {
            let state = if signal.kind == AgentTerminalSignalKind::Started {
                SessionState::Idle
            } else {
                SessionState::Working
            };
            let stated = choose|stated: BlackholesApp| #[trigger]
                BlackholesApp::notes_state(noted, stated, terminal_id, state)
                    && BlackholesApp::requests(stated, after, seq![Effect::Redraw]);
            lemma_still_stands(noted, stated, terminal_id, state, at);
        },
    }
}

/// A terminal whose process ended is one that exited, and asks for no attention.
pub proof fn law_exit_noted(before: BlackholesApp, after: BlackholesApp, terminal_id: Id, at: int)
    requires
        BlackholesApp::exits(before, after, terminal_id),
        stands_at(before.session.terminals@, terminal_id, at),
    ensures
        after.session.terminals@[at].state == SessionState::Exited,
        after.session.terminals@[at].agent == before.session.terminals@[at].agent,
        after.session.terminals@.len() == before.session.terminals@.len(),
        forall|i: int|
            0 <= i < after.app_toasts@.len() ==> !((#[trigger] after.app_toasts@[i]).target matches
            AppToastTarget::Terminal { terminal_id: id, .. } && id == terminal_id),
{
    let inspected = choose|inspected: BlackholesApp| #[trigger]
        BlackholesApp::requests(before, inspected, before.inspects_terminal(terminal_id))
            && BlackholesApp::notes_and_draws(inspected, after, terminal_id, SessionState::Exited);
    let noted = choose|noted: BlackholesApp| #[trigger]
        BlackholesApp::notes_state(inspected, noted, terminal_id, SessionState::Exited)
            && BlackholesApp::requests(noted, after, seq![Effect::Redraw]);
    lemma_still_stands(inspected, noted, terminal_id, SessionState::Exited, at);
    law_attention_over(inspected, noted, terminal_id, SessionState::Exited);
    lemma_stands(before.session.terminals@, terminal_id, at);
    let now = choose|now: Time| #[trigger]
        BlackholesApp::notes_state_at(inspected, noted, terminal_id, SessionState::Exited, now);
    assert(BlackholesApp::notes_state_at(inspected, noted, terminal_id, SessionState::Exited, now));
}

/// An agent found in front of a shell that is at work makes the terminal one of that
/// agent, at rest; what was learned too late, or of a terminal that runs an agent or
/// has ended, changes nothing.
pub proof fn law_agent_found(
    before: BlackholesApp,
    after: BlackholesApp,
    terminal_id: Id,
    agent: AgentKind,
    still_in_front: bool,
    at: int,
)
    requires
        BlackholesApp::finds_agent(before, after, terminal_id, agent, still_in_front),
        stands_at(before.session.terminals@, terminal_id, at),
    ensures
        still_in_front && before.running@.contains(terminal_id)
            && before.session.terminals@[at].agent == AgentKind::Shell
            && before.session.terminals@[at].state != SessionState::Exited
            ==> after.session.terminals@[at].agent == agent && after.session.terminals@[at].state
            == SessionState::Idle,
        !still_in_front || !before.running@.contains(terminal_id)
            || before.session.terminals@[at].agent != AgentKind::Shell
            || before.session.terminals@[at].state == SessionState::Exited ==> after == before,
{
    lemma_stands(before.session.terminals@, terminal_id, at);
    let terminal = before.session.terminals@[at];
    if still_in_front && before.running@.contains(terminal_id) && terminal.agent == AgentKind::Shell
        && terminal.state != SessionState::Exited {
        let settled = choose|settled: BlackholesApp| #[trigger]
            BlackholesApp::settles_agent(before, settled, terminal_id, agent)
                && BlackholesApp::requests(settled, after, seq![Effect::Redraw]);
        let noted = choose|noted: BlackholesApp| #[trigger]
            BlackholesApp::notes_agent(before, noted, terminal_id, agent)
                && BlackholesApp::notes_state(noted, settled, terminal_id, SessionState::Idle);
        assert(stands_at(noted.session.terminals@, terminal_id, at));
        lemma_still_stands(noted, settled, terminal_id, SessionState::Idle, at);
    }
}

/// The title of a terminal is its name. A title that names an agent makes the terminal
/// one of it, and the shell in front ends any agent; either is at rest where that is
/// new. No other terminal changes.
pub proof fn law_title_taken(
    before: BlackholesApp,
    after: BlackholesApp,
    terminal_id: Id,
    title: Seq<char>,
    shell_in_front: bool,
    at: int,
)
    requires
        BlackholesApp::titles(before, after, terminal_id, title, shell_in_front),
        stands_at(before.session.terminals@, terminal_id, at),
    ensures
        after.session.terminals@[at].label@ == shown_title(title),
        ({
            let named = agent_of_title(title, before.agent_labels.claude_name@);
            let was = before.session.terminals@[at].agent;
            let is_now = after.session.terminals@[at].agent;
            &&& named matches Some(agent) ==> is_now == agent
            &&& named is None && shell_in_front ==> is_now == AgentKind::Shell
            &&& named is None && !shell_in_front ==> is_now == was
            &&& is_now != was ==> after.session.terminals@[at].state == SessionState::Idle
            &&& is_now == was ==> after.session.terminals@[at].state
                == before.session.terminals@[at].state
        }),
        forall|i: int|
            0 <= i < after.session.terminals@.len() && i != at
                ==> #[trigger] after.session.terminals@[i] == before.session.terminals@[i],
        after.session.terminals@.len() == before.session.terminals@.len(),
{
    lemma_stands(before.session.terminals@, terminal_id, at);
    let now = choose|now: Time| #[trigger]
        BlackholesApp::titles_at(before, after, terminal_id, title, shell_in_front, now);
    assert(BlackholesApp::titles_at(before, after, terminal_id, title, shell_in_front, now));
}

/// The agent of a terminal is over once its shell is in front of the main screen again.
pub proof fn law_agent_over(before: BlackholesApp, after: BlackholesApp, terminal_id: Id, at: int)
    requires
        BlackholesApp::switches_screen(before, after, terminal_id, false, true),
        stands_at(before.session.terminals@, terminal_id, at),
        before.session.terminals@[at].state != SessionState::Exited,
    ensures
        after.session.terminals@[at].agent == AgentKind::Shell,
        before.session.terminals@[at].agent != AgentKind::Shell ==> after.session.terminals@[at].state
            == SessionState::Idle,
{
    lemma_stands(before.session.terminals@, terminal_id, at);
    if before.session.terminals@[at].agent != AgentKind::Shell {
        let inspected = choose|inspected: BlackholesApp| #[trigger]
            BlackholesApp::requests(before, inspected, before.inspects_terminal(terminal_id))
                && BlackholesApp::settles_agent(inspected, after, terminal_id, AgentKind::Shell);
        let noted = choose|noted: BlackholesApp| #[trigger]
            BlackholesApp::notes_agent(inspected, noted, terminal_id, AgentKind::Shell)
                && BlackholesApp::notes_state(noted, after, terminal_id, SessionState::Idle);
        assert(stands_at(noted.session.terminals@, terminal_id, at));
        lemma_still_stands(noted, after, terminal_id, SessionState::Idle, at);
    }
}

/// A program in front of a shell that is at work is looked up, whatever screen it is
/// on; the shell itself never is.
pub proof fn law_foreground_looked_up(
    before: BlackholesApp,
    after: BlackholesApp,
    terminal_id: Id,
    shell_in_front: bool,
    at: int,
)
    requires
        BlackholesApp::detects_agent(before, after, terminal_id, shell_in_front),
        stands_at(before.session.terminals@, terminal_id, at),
    ensures
        !shell_in_front && before.running@.contains(terminal_id)
            && before.session.terminals@[at].agent == AgentKind::Shell
            && before.session.terminals@[at].state != SessionState::Exited ==> after.effects@
            == before.effects@.push(Effect::DetectForegroundAgent { terminal_id }),
        shell_in_front || !before.running@.contains(terminal_id)
            || before.session.terminals@[at].agent != AgentKind::Shell ==> after == before,
{
    lemma_stands(before.session.terminals@, terminal_id, at);
    if before.session.terminals@[at].agent == AgentKind::Shell
        && before.session.terminals@[at].state != SessionState::Exited {
        assert(before.is_live_shell(terminal_id));
    }
}

} // verus!
