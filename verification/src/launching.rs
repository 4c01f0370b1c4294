//! Starting, focusing and closing terminals.
use vstd::prelude::*;
use vstd::string::*;

use crate::app::{agent_name, AppSession, BlackholesApp, Modals, Surface};
use crate::clock::{current_time, fresh_id, Time};
use crate::dock::{
    bring_to_front, brought_to_front, close_in_docks, closed_everywhere, dock_at, entry_is,
    front_terminal, leaves, open_tab, tab_ids, tab_is, tab_opened, DockEntry, DockKey, DockNode,
    DockTab,
};
use crate::effects::{Dialog, Effect, ModalKind};
use crate::ids::{contains_id, insert_unique, remove_id, with_id, without_id, Id};
use crate::model::{
    find_task, find_terminal, task_at, terminal_at, AgentKind, ProjectTask, RecordedSession,
    SessionState, TaskSession, TerminalDescriptor,
};
use crate::search::{first_where, lemma_filter_step, lemma_first_where};
use crate::text::join2;
use crate::toasts::{retain_toasts, terminal_of, without_terminal, ToastFilter};

verus! {

impl TerminalDescriptor {
    /// A copy of the record.
    pub fn duplicate(&self) -> (result: TerminalDescriptor)
        ensures
            result == *self,
    {
        TerminalDescriptor {
            id: self.id,
            workspace_id: self.workspace_id,
            task_id: self.task_id,
            repository_id: self.repository_id,
            agent: self.agent,
            label: self.label.clone(),
            cwd: self.cwd.clone(),
            state: self.state,
            codex_session: copy_session(&self.codex_session),
            claude_session: copy_session(&self.claude_session),
            agent_config_dir: crate::model::copy_text(&self.agent_config_dir),
            created_at: self.created_at,
        }
    }

    /// The dock that the terminal stands in.
    pub open spec fn dock(self) -> DockKey {
        DockKey {
            workspace_id: self.workspace_id,
            task_id: self.task_id,
            repository_id: self.repository_id,
        }
    }
}

fn copy_session(session: &Option<RecordedSession>) -> (result: Option<RecordedSession>)
    ensures
        result == *session,
{
    match session {
        Some(session) => Some(
            RecordedSession { id: session.id.clone(), profile: session.profile },
        ),
        None => None,
    }
}

// ---------------------------------------------------------------------------
// Focus
// ---------------------------------------------------------------------------
impl BlackholesApp {
    /// The request to hand the keyboard to a terminal: only one that runs takes it.
    pub open spec fn focuses(&self, terminal_id: Id) -> Seq<Effect> {
        if self.running@.contains(terminal_id) {
            seq![Effect::FocusTerminal { terminal_id }]
        } else {
            seq![]
        }
    }

    /// Hands the keyboard to a terminal.
    pub fn focus_terminal_input(&mut self, terminal_id: Id)
        ensures
            Self::requests(*old(self), *final(self), old(self).focuses(terminal_id)),
    {
        if contains_id(&self.running, terminal_id) {
            self.emit(Effect::FocusTerminal { terminal_id });
        } else {
            assert(self.effects@ =~= old(self).effects@ + Seq::<Effect>::empty());
        }
    }

    /// The state with the terminals chosen as the page.
    pub open spec fn on_terminals(self) -> Self {
        BlackholesApp {
            surface: Surface { show_terminal: true, ..self.surface.plain() },
            ..self
        }
    }

    /// `after` is `before` with the terminals in front and the explorer closed.
    pub open spec fn shows_terminals(before: Self, after: Self) -> bool {
        Self::closes_explorer(before.on_terminals(), after)
    }

    fn show_terminals(&mut self)
        ensures
            Self::shows_terminals(*old(self), *final(self)),
    {
        self.surface.clear();
        self.surface.show_terminal = true;
        self.close_file_explorer();
    }

    /// `after` is `before` without the notifications about a terminal.
    pub open spec fn clears_toasts(before: Self, after: Self, terminal_id: Id) -> bool {
        &&& after.app_toasts@ == without_terminal(before.app_toasts@, terminal_id)
        &&& after == (BlackholesApp { app_toasts: after.app_toasts, ..before })
    }

    /// `after` is `before` with the target of a terminal selected and the
    /// terminal in front of its dock.
    pub open spec fn enters_terminal(before: Self, after: Self, terminal: TerminalDescriptor) -> bool {
        &&& exists|picked: AppSession| #[trigger]
            AppSession::picks(
                before.session,
                picked,
                terminal.workspace_id,
                terminal.task_id,
                terminal.repository_id,
                true,
            ) && after.session == (AppSession { docks: after.session.docks, ..picked })
        &&& brought_to_front(
            before.session.docks@,
            after.session.docks@,
            terminal.dock(),
            terminal.id,
        )
        &&& after == (BlackholesApp { session: after.session, ..before })
    }

    /// `after` is `before` with a terminal that runs brought to the user: one
    /// that waited for attention no longer does.
    pub open spec fn greets_terminal(before: Self, after: Self, terminal: TerminalDescriptor) -> bool {
        exists|focused: BlackholesApp| #[trigger]
            Self::requests(before, focused, before.focuses(terminal.id)) && if terminal.state
                == SessionState::Attention {
                Self::notes_and_draws(focused, after, terminal.id, SessionState::Idle)
            } else {
                Self::saves_and_draws(focused, after)
            }
    }

    /// `after` is `before` with a terminal brought to the user; one that does
    /// not run is started again.
    pub open spec fn focuses_terminal(before: Self, after: Self, terminal_id: Id) -> bool {
        match terminal_at(before.session.terminals@, terminal_id) {
            None => after == before,
            Some(at) => {
                let terminal = before.session.terminals@[at];
                exists|cleared: BlackholesApp, shown: BlackholesApp, entered: BlackholesApp|
                    {
                        &&& #[trigger] Self::clears_toasts(before, cleared, terminal_id)
                        &&& #[trigger] Self::shows_terminals(cleared, shown)
                        &&& #[trigger] Self::enters_terminal(shown, entered, terminal)
                        &&& if before.running@.contains(terminal_id) {
                            Self::greets_terminal(entered, after, terminal)
                        } else {
                            Self::restarts(entered, after, terminal_id)
                        }
                    }
            },
        }
    }

    /// Brings a terminal to the user.
    pub fn focus_terminal(&mut self, terminal_id: Id)
        ensures
            Self::focuses_terminal(*old(self), *final(self), terminal_id),
    {
        let ghost before = *self;
        let terminal = match find_terminal(&self.session.terminals, terminal_id) {
            Some(at) => self.session.terminals[at].duplicate(),
            None => {
                return ;
            },
        };
        proof {
            lemma_first_where(
                before.session.terminals@,
                crate::model::terminal_is(terminal_id),
                0,
            );
        }
        retain_toasts(&mut self.app_toasts, ToastFilter::NotOfTerminal { terminal_id });
        let ghost cleared = *self;
        assert(Self::clears_toasts(before, cleared, terminal_id));
        self.show_terminals();
        let ghost shown = *self;
        assert(Self::shows_terminals(cleared, shown));
        self.session.pick(terminal.workspace_id, terminal.task_id, terminal.repository_id, true);
        let ghost picked = self.session;
        let key = DockKey {
            workspace_id: terminal.workspace_id,
            task_id: terminal.task_id,
            repository_id: terminal.repository_id,
        };
        bring_to_front(&mut self.session.docks, key, terminal_id);
        let ghost entered = *self;
        assert(AppSession::picks(
            shown.session,
            picked,
            terminal.workspace_id,
            terminal.task_id,
            terminal.repository_id,
            true,
        ));
        assert(Self::enters_terminal(shown, entered, terminal));
        if !contains_id(&self.running, terminal_id) {
            self.restart_terminal(terminal_id);
            return ;
        }
        self.focus_terminal_input(terminal_id);
        assert(Self::requests(entered, *self, entered.focuses(terminal_id)));
        if terminal.state == SessionState::Attention {
            self.note_and_draw(terminal_id, SessionState::Idle);
        } else {
            self.save_and_draw();
        }
        assert(Self::greets_terminal(entered, *self, terminal));
    }

    // -----------------------------------------------------------------------
    // Starting again
    // -----------------------------------------------------------------------
    /// `after` is `before` with a terminal that runs at rest, in front and saved.
    pub open spec fn resumes(before: Self, after: Self, terminal_id: Id) -> bool {
        exists|noted: BlackholesApp, focused: BlackholesApp| #[trigger]
            Self::notes_state(before, noted, terminal_id, SessionState::Idle) && #[trigger]
            Self::requests(noted, focused, noted.focuses(terminal_id)) && Self::saves_and_draws(
                focused,
                after,
            )
    }

    /// `after` is `before` with the process of a terminal asked for; one that
    /// runs just goes on.
    pub open spec fn revives(before: Self, after: Self, terminal_id: Id) -> bool {
        if before.running@.contains(terminal_id) {
            Self::resumes(before, after, terminal_id)
        } else {
            Self::requests(before, after, seq![Effect::StartTerminal { terminal_id }])
        }
    }

    /// `after` is `before` with a terminal shown and started again.
    pub open spec fn restarts(before: Self, after: Self, terminal_id: Id) -> bool {
        if terminal_at(before.session.terminals@, terminal_id) is None {
            after == before
        } else {
            exists|shown: BlackholesApp| #[trigger]
                Self::shows_terminals(before, shown) && Self::revives(shown, after, terminal_id)
        }
    }

    fn resume_terminal(&mut self, terminal_id: Id)
        ensures
            Self::resumes(*old(self), *final(self), terminal_id),
    {
        let ghost before = *self;
        self.update_terminal_state(terminal_id, SessionState::Idle);
        let ghost noted = *self;
        assert(Self::notes_state(before, noted, terminal_id, SessionState::Idle));
        self.focus_terminal_input(terminal_id);
        assert(Self::requests(noted, *self, noted.focuses(terminal_id)));
        self.save_and_draw();
    }

    /// Starts a terminal of the session again.
    pub fn restart_terminal(&mut self, terminal_id: Id)
        ensures
            Self::restarts(*old(self), *final(self), terminal_id),
    {
        if find_terminal(&self.session.terminals, terminal_id).is_none() {
            return ;
        }
        let ghost before = *self;
        self.show_terminals();
        let ghost shown = *self;
        assert(Self::shows_terminals(before, shown));
        if contains_id(&self.running, terminal_id) {
            self.resume_terminal(terminal_id);
        } else {
            self.emit(Effect::StartTerminal { terminal_id });
        }
        assert(Self::revives(shown, *self, terminal_id));
    }

    /// `after` is `before` with a process known to run.
    pub open spec fn runs(before: Self, after: Self, terminal_id: Id) -> bool {
        &&& after.running@ == with_id(before.running@, terminal_id)
        &&& after == (BlackholesApp { running: after.running, ..before })
    }

    /// `after` is `before` after the process of a terminal of the session was started,
    /// or could not be.
    pub open spec fn finishes_restart(
        before: Self,
        after: Self,
        terminal_id: Id,
        result: Result<(), String>,
    ) -> bool {
        match result {
            Ok(_) => exists|running: BlackholesApp| #[trigger]
                Self::runs(before, running, terminal_id) && Self::resumes(
                    running,
                    after,
                    terminal_id,
                ),
            Err(error) => Self::reports(
                before,
                after,
                "Could not restore terminal: "@ + error@,
                true,
            ),
        }
    }

    /// The process of a terminal of the session was started, or could not be.
    pub fn finish_terminal_restart(&mut self, terminal_id: Id, result: Result<(), String>)
        ensures
            Self::finishes_restart(*old(self), *final(self), terminal_id, result),
    {
        let ghost before = *self;
        match result {
            Ok(_) => {
                insert_unique(&mut self.running, terminal_id);
                assert(Self::runs(before, *self, terminal_id));
                self.resume_terminal(terminal_id);
            },
            Err(error) => {
                let message = join2("Could not restore terminal: ", error.as_str());
                self.set_status(message, true);
            },
        }
    }
}

// ---------------------------------------------------------------------------
// New terminals
// ---------------------------------------------------------------------------
/// The task with a record of a terminal added, at a given time.
pub open spec fn task_with_session(
    before: ProjectTask,
    after: ProjectTask,
    terminal: TerminalDescriptor,
    session_id: Id,
    now: Time,
) -> bool {
    let session = after.sessions@.last();
    &&& after.sessions@.len() == before.sessions@.len() + 1
    &&& after.sessions@.drop_last() == before.sessions@
    &&& session.label@ == terminal.label@
    &&& session == (TaskSession {
        id: session_id,
        repository_id: terminal.repository_id,
        terminal_local_id: terminal.id,
        agent: terminal.agent,
        label: session.label,
        state: terminal.state,
        created_at: now,
        updated_at: now,
        exited_at: None,
    })
    &&& after == (ProjectTask { sessions: after.sessions, updated_at: now, ..before })
}

impl BlackholesApp {
    /// Where the task of a terminal stands.
    pub open spec fn task_of_terminal(&self, terminal: TerminalDescriptor) -> Option<int> {
        match terminal.task_id {
            Some(task_id) => task_at(self.tasks@, task_id),
            None => None,
        }
    }

    /// `after` is `before` with a terminal recorded on its task.
    pub open spec fn records_terminal_at(
        before: Self,
        after: Self,
        terminal: TerminalDescriptor,
        session_id: Id,
        now: Time,
    ) -> bool {
        match before.task_of_terminal(terminal) {
            None => after == before,
            Some(at) => {
                &&& task_with_session(before.tasks@[at], after.tasks@[at], terminal, session_id, now)
                &&& after.tasks@ == before.tasks@.update(at, after.tasks@[at])
                &&& after.effects@ == before.effects@ + seq![
                    Effect::SaveTask { task_id: before.tasks@[at].id },
                ]
                &&& after == (BlackholesApp {
                    tasks: after.tasks,
                    effects: after.effects,
                    ..before
                })
            },
        }
    }

    /// `after` is `before` with a terminal recorded on its task.
    pub open spec fn records_terminal(before: Self, after: Self, terminal: TerminalDescriptor) -> bool {
        exists|session_id: Id, now: Time| #[trigger]
            Self::records_terminal_at(before, after, terminal, session_id, now)
    }

    /// Records a terminal on its task, under a given identifier and time.
    pub fn add_task_session_at(&mut self, terminal: &TerminalDescriptor, session_id: Id, now: Time)
        ensures
            Self::records_terminal_at(*old(self), *final(self), *terminal, session_id, now),
    {
        let ghost before = *self;
        let task_id: Id = match terminal.task_id {
            Some(task_id) => task_id,
            None => {
                return ;
            },
        };
        let at: usize = match find_task(&self.tasks, task_id) {
            Some(at) => at,
            None => {
                return ;
            },
        };
        let session = TaskSession {
            id: session_id,
            repository_id: terminal.repository_id,
            terminal_local_id: terminal.id,
            agent: terminal.agent,
            label: terminal.label.clone(),
            state: terminal.state,
            created_at: now,
            updated_at: now,
            exited_at: None,
        };
        self.tasks[at].sessions.push(session);
        self.tasks[at].updated_at = now;
        let task_id: Id = self.tasks[at].id;
        self.emit(Effect::SaveTask { task_id });
        proof {
            assert(self.tasks@ =~= before.tasks@.update(at as int, self.tasks@[at as int]));
            assert(self.tasks@[at as int].sessions@.drop_last()
                =~= before.tasks@[at as int].sessions@);
        }
    }

    /// Records a terminal on its task.
    pub fn add_task_session(&mut self, terminal: &TerminalDescriptor)
        ensures
            Self::records_terminal(*old(self), *final(self), *terminal),
    {
        let session_id: Id = fresh_id();
        let now: Time = current_time();
        self.add_task_session_at(terminal, session_id, now);
    }

    /// The directory that a new terminal of the selection starts in. `directory`
    /// is the one that the selected target has.
    pub open spec fn directory_for_terminal(&self, directory: Option<String>) -> Result<
        Seq<char>,
        Seq<char>,
    > {
        if self.workspace_selected() is None {
            Err("Select a project"@)
        } else {
            match directory {
                Some(directory) => Ok(directory@),
                None => Err("The selected target does not have a terminal directory"@),
            }
        }
    }

    /// The directory that a new terminal of the selection starts in.
    pub fn terminal_cwd(&self, directory: Option<String>) -> (result: Result<String, &'static str>)
        ensures
            match (result, self.directory_for_terminal(directory)) {
                (Ok(path), Ok(wanted)) => path@ == wanted,
                (Err(error), Err(wanted)) => error@ == wanted,
                _ => false,
            },
    {
        if self.selected_workspace().is_none() {
            return Err("Select a project");
        }
        match directory {
            Some(directory) => Ok(directory),
            None => Err("The selected target does not have a terminal directory"),
        }
    }

    /// A terminal for the selection, at rest.
    pub open spec fn is_new_terminal(
        &self,
        terminal: TerminalDescriptor,
        agent: AgentKind,
        cwd: Seq<char>,
        config_dir: Option<String>,
    ) -> bool {
        &&& terminal.label@ == agent_name(self.agent_labels, agent)
        &&& terminal.cwd@ == cwd
        &&& terminal == (TerminalDescriptor {
            id: terminal.id,
            workspace_id: self.session.selected_workspace_id->0,
            task_id: self.session.selected_task_id,
            repository_id: self.session.selected_repository_id,
            agent,
            label: terminal.label,
            cwd: terminal.cwd,
            state: SessionState::Idle,
            codex_session: None,
            claude_session: None,
            agent_config_dir: config_dir,
            created_at: terminal.created_at,
        })
    }

    /// `after` is `before` with a new terminal asked for, or the user told why not.
    pub open spec fn asks_for_terminal(
        before: Self,
        after: Self,
        agent: AgentKind,
        directory: Option<String>,
        config_dir: Option<String>,
    ) -> bool {
        if before.session.selected_workspace_id is None {
            Self::reports(before, after, "Select a project first"@, true)
        } else {
            match before.directory_for_terminal(directory) {
                Err(error) => Self::reports(before, after, error, true),
                Ok(cwd) => exists|terminal: TerminalDescriptor| #[trigger]
                    before.is_new_terminal(terminal, agent, cwd, config_dir) && Self::requests(
                        before,
                        after,
                        seq![Effect::SpawnTerminal { descriptor: terminal }],
                    ),
            }
        }
    }

    /// `after` is `before` with the terminals shown and a new one asked for.
    pub open spec fn begins_terminal(
        before: Self,
        after: Self,
        agent: AgentKind,
        directory: Option<String>,
        config_dir: Option<String>,
    ) -> bool {
        exists|shown: BlackholesApp| #[trigger]
            Self::shows_terminals(before, shown) && Self::asks_for_terminal(
                shown,
                after,
                agent,
                directory,
                config_dir,
            )
    }

    /// Begins a new terminal for the selection. `directory` is the one that the
    /// selected target has, `config_dir` the profile of the agent's account where
    /// it has one of its own.
    pub fn new_terminal(
        &mut self,
        agent: AgentKind,
        directory: Option<String>,
        config_dir: Option<String>,
    )
        ensures
            Self::begins_terminal(*old(self), *final(self), agent, directory, config_dir),
    {
        let ghost before = *self;
        let ghost wanted = directory;
        self.show_terminals();
        let ghost shown = *self;
        assert(Self::shows_terminals(before, shown));
        let workspace_id: Id = match self.session.selected_workspace_id {
            Some(workspace_id) => workspace_id,
            None => {
                self.set_status("Select a project first".to_string(), true);
                assert(Self::asks_for_terminal(shown, *self, agent, wanted, config_dir));
                return ;
            },
        };
        let cwd = match self.terminal_cwd(directory) {
            Ok(cwd) => cwd,
            Err(error) => {
                self.set_status(error.to_string(), true);
                assert(Self::asks_for_terminal(shown, *self, agent, wanted, config_dir));
                return ;
            },
        };
        let terminal = TerminalDescriptor {
            id: fresh_id(),
            workspace_id,
            task_id: self.session.selected_task_id,
            repository_id: self.session.selected_repository_id,
            agent,
            label: self.agent_labels.label(agent).to_string(),
            cwd,
            state: SessionState::Idle,
            codex_session: None,
            claude_session: None,
            agent_config_dir: config_dir,
            created_at: current_time(),
        };
        assert(shown.is_new_terminal(terminal, agent, cwd@, config_dir));
        self.emit(Effect::SpawnTerminal { descriptor: terminal });
        assert(Self::asks_for_terminal(shown, *self, agent, wanted, config_dir));
    }

    /// `after` is `before` with a terminal in the session: it runs, stands in a
    /// tab of its own in front of its dock, and its project and task are expanded.
    pub open spec fn adds_terminal(
        before: Self,
        after: Self,
        terminal: TerminalDescriptor,
        tab_id: Id,
    ) -> bool {
        &&& after.running@ == with_id(before.running@, terminal.id)
        &&& exists|tab: DockTab| #[trigger]
            tab_opened(before.session.docks@, after.session.docks@, terminal.dock(), tab)
                && tab.title@ == terminal.label@ && tab == (DockTab {
                id: tab_id,
                title: tab.title,
                root: DockNode::Panel { terminal_id: terminal.id },
                active_terminal_id: terminal.id,
            })
        &&& after.session.terminals@ == before.session.terminals@.push(terminal)
        &&& after.session.expanded_workspace_ids@ == with_id(
            before.session.expanded_workspace_ids@,
            terminal.workspace_id,
        )
        &&& after.session.expanded_task_ids@ == match terminal.task_id {
            Some(task_id) => with_id(before.session.expanded_task_ids@, task_id),
            None => before.session.expanded_task_ids@,
        }
        &&& after == (BlackholesApp {
            running: after.running,
            session: AppSession {
                docks: after.session.docks,
                terminals: after.session.terminals,
                expanded_workspace_ids: after.session.expanded_workspace_ids,
                expanded_task_ids: after.session.expanded_task_ids,
                ..before.session
            },
            ..before
        })
    }

    /// `after` is `before` with a terminal in the session and on its task.
    pub open spec fn opens_terminal(before: Self, after: Self, terminal: TerminalDescriptor) -> bool {
        exists|tab_id: Id, added: BlackholesApp| #[trigger]
            Self::adds_terminal(before, added, terminal, tab_id) && Self::records_terminal(
                added,
                after,
                terminal,
            )
    }

    pub(crate) fn open_terminal(&mut self, terminal: &TerminalDescriptor)
        ensures
            Self::opens_terminal(*old(self), *final(self), *terminal),
    {
        let ghost before = *self;
        insert_unique(&mut self.running, terminal.id);
        let tab_id: Id = fresh_id();
        let tab = DockTab {
            id: tab_id,
            title: terminal.label.clone(),
            root: DockNode::Panel { terminal_id: terminal.id },
            active_terminal_id: terminal.id,
        };
        let key = DockKey {
            workspace_id: terminal.workspace_id,
            task_id: terminal.task_id,
            repository_id: terminal.repository_id,
        };
        open_tab(&mut self.session.docks, key, tab);
        self.session.terminals.push(terminal.duplicate());
        insert_unique(&mut self.session.expanded_workspace_ids, terminal.workspace_id);
        if let Some(task_id) = terminal.task_id {
            insert_unique(&mut self.session.expanded_task_ids, task_id);
        }
        assert(tab_opened(before.session.docks@, self.session.docks@, terminal.dock(), tab));
        assert(Self::adds_terminal(before, *self, *terminal, tab_id));
        self.add_task_session(terminal);
    }

    /// `after` is `before` once the process of a new terminal was started, or could
    /// not be.
    pub open spec fn finishes_terminal(
        before: Self,
        after: Self,
        terminal: TerminalDescriptor,
        result: Result<(), String>,
    ) -> bool {
        match result {
            Ok(_) => exists|opened: BlackholesApp| #[trigger]
                Self::opens_terminal(before, opened, terminal) && Self::requests(
                    opened,
                    after,
                    seq![
                        opened.persists(),
                        Effect::FocusTerminal { terminal_id: terminal.id },
                        Effect::Redraw,
                    ],
                ),
            Err(error) => Self::reports(
                before,
                after,
                "Could not open terminal: "@ + error@,
                true,
            ),
        }
    }

    /// The process of a new terminal was started, or could not be.
    pub fn finish_new_terminal(&mut self, terminal: TerminalDescriptor, result: Result<(), String>)
        ensures
            Self::finishes_terminal(*old(self), *final(self), terminal, result),
    {
        let ghost before = *self;
        match result {
            Ok(_) => {
                self.open_terminal(&terminal);
                let ghost opened = *self;
                assert(Self::opens_terminal(before, opened, terminal));
                self.persist_session();
                self.emit(Effect::FocusTerminal { terminal_id: terminal.id });
                self.notify();
                assert(self.effects@ =~= opened.effects@ + seq![
                    opened.persists(),
                    Effect::FocusTerminal { terminal_id: terminal.id },
                    Effect::Redraw,
                ]);
            },
            Err(error) => {
                let message = join2("Could not open terminal: ", error.as_str());
                self.set_status(message, true);
            },
        }
    }
}

// ---------------------------------------------------------------------------
// Closing
// ---------------------------------------------------------------------------
pub open spec fn other_terminal(terminal_id: Id) -> spec_fn(TerminalDescriptor) -> bool {
    |terminal: TerminalDescriptor| terminal.id != terminal_id
}

fn drop_terminal(terminals: &mut Vec<TerminalDescriptor>, terminal_id: Id)
    ensures
        final(terminals)@ == old(terminals)@.filter(other_terminal(terminal_id)),
{
    let ghost before = terminals@;
    let ghost keep = other_terminal(terminal_id);
    let mut rest: Vec<TerminalDescriptor> = Vec::new();
    std::mem::swap(&mut rest, terminals);
    assert(before.take(0).filter(keep) =~= Seq::<TerminalDescriptor>::empty());
    while rest.len() > 0
        invariant
            keep == other_terminal(terminal_id),
            rest@.len() <= before.len(),
            rest@ == before.skip(before.len() - rest@.len()),
            terminals@ == before.take(before.len() - rest@.len()).filter(keep),
        decreases rest@.len(),
    {
        let ghost done = before.len() - rest@.len();
        let terminal = rest.remove(0);
        proof {
            lemma_filter_step(before, keep, done);
            assert(rest@ =~= before.skip(done + 1));
        }
        if terminal.id != terminal_id {
            terminals.push(terminal);
        }
    }
    assert(before.take(before.len() as int) =~= before);
}

impl BlackholesApp {
    /// `after` is `before` with a terminal stopped and taken out of the session.
    pub open spec fn drops_terminal(before: Self, after: Self, terminal_id: Id) -> bool {
        &&& after.running@ == without_id(before.running@, terminal_id)
        &&& after.session.terminals@ == before.session.terminals@.filter(
            other_terminal(terminal_id),
        )
        &&& closed_everywhere(before.session.docks@, after.session.docks@, terminal_id)
        &&& after.effects@ == before.effects@ + if before.running@.contains(terminal_id) {
            seq![Effect::StopTerminal { terminal_id }]
        } else {
            seq![]
        }
        &&& after == (BlackholesApp {
            running: after.running,
            session: AppSession {
                terminals: after.session.terminals,
                docks: after.session.docks,
                ..before.session
            },
            effects: after.effects,
            ..before
        })
    }

    /// `after` is `before` with the repositories of a terminal looked at, where asked.
    pub open spec fn inspects_if(before: Self, after: Self, terminal_id: Id, inspect: bool) -> bool {
        if inspect {
            Self::requests(before, after, before.inspects_terminal(terminal_id))
        } else {
            after == before
        }
    }

    /// `after` is `before` with a terminal closed.
    pub open spec fn closes_terminal(before: Self, after: Self, terminal_id: Id, refresh_git: bool) -> bool {
        exists|inspected: BlackholesApp, dropped: BlackholesApp, noted: BlackholesApp|
            {
                &&& #[trigger] Self::inspects_if(before, inspected, terminal_id, refresh_git)
                &&& #[trigger] Self::drops_terminal(inspected, dropped, terminal_id)
                &&& #[trigger] Self::notes_state(dropped, noted, terminal_id, SessionState::Exited)
                &&& Self::saves_and_draws(noted, after)
            }
    }

    pub(crate) fn close_terminal_internal(&mut self, terminal_id: Id, refresh_git: bool)
        ensures
            Self::closes_terminal(*old(self), *final(self), terminal_id, refresh_git),
    {
        let ghost before = *self;
        if refresh_git {
            self.refresh_terminal_repository_git_summary(terminal_id);
        }
        let ghost inspected = *self;
        assert(Self::inspects_if(before, inspected, terminal_id, refresh_git));
        let running: bool = contains_id(&self.running, terminal_id);
        remove_id(&mut self.running, terminal_id);
        if running {
            self.emit(Effect::StopTerminal { terminal_id });
        } else {
            assert(self.effects@ =~= inspected.effects@ + Seq::<Effect>::empty());
        }
        drop_terminal(&mut self.session.terminals, terminal_id);
        close_in_docks(&mut self.session.docks, terminal_id);
        let ghost dropped = *self;
        assert(Self::drops_terminal(inspected, dropped, terminal_id));
        self.update_terminal_state(terminal_id, SessionState::Exited);
        assert(Self::notes_state(dropped, *self, terminal_id, SessionState::Exited));
        self.save_and_draw();
    }

    /// Closes a terminal.
    pub fn close_terminal(&mut self, terminal_id: Id)
        ensures
            Self::closes_terminal(*old(self), *final(self), terminal_id, true),
    {
        self.close_terminal_internal(terminal_id, true);
    }

    /// `after` is `before` with the user asked before an agent is closed.
    pub open spec fn asks_before_closing(before: Self, after: Self, terminal_id: Id) -> bool {
        let kind = ModalKind::CloseTerminal { terminal_id };
        if before.has_workspace_webview {
            Self::requests(
                BlackholesApp {
                    modals: Modals { agent_removal: Some(terminal_id), ..before.modals },
                    ..before
                },
                after,
                seq![
                    Effect::ShowModal { kind },
                    Effect::ModalVisibility { visible: true },
                    Effect::Redraw,
                ],
            )
        } else {
            Self::requests(
                before,
                after,
                seq![Effect::OpenDialog { dialog: Dialog::CloseTerminal { terminal_id } }],
            )
        }
    }

    /// `after` is `before` with a terminal closed where it is a mere shell, and
    /// the user asked where an agent runs in it.
    pub open spec fn requests_close(before: Self, after: Self, terminal_id: Id) -> bool {
        match terminal_at(before.session.terminals@, terminal_id) {
            None => after == before,
            Some(at) => if before.session.terminals@[at].agent == AgentKind::Shell {
                Self::closes_terminal(before, after, terminal_id, true)
            } else {
                Self::asks_before_closing(before, after, terminal_id)
            },
        }
    }

    /// The user wants a terminal closed.
    pub fn request_close_terminal(&mut self, terminal_id: Id)
        ensures
            Self::requests_close(*old(self), *final(self), terminal_id),
    {
        let shell: bool = match find_terminal(&self.session.terminals, terminal_id) {
            Some(at) => self.session.terminals[at].agent == AgentKind::Shell,
            None => {
                return ;
            },
        };
        if shell {
            self.close_terminal(terminal_id);
            return ;
        }
        let kind = ModalKind::CloseTerminal { terminal_id };
        if self.has_workspace_webview {
            self.modals.agent_removal = Some(terminal_id);
            self.emit(Effect::ShowModal { kind });
            self.emit(Effect::ModalVisibility { visible: true });
            self.notify();
            assert(self.effects@ =~= old(self).effects@ + seq![
                Effect::ShowModal { kind },
                Effect::ModalVisibility { visible: true },
                Effect::Redraw,
            ]);
        } else {
            self.emit(Effect::OpenDialog { dialog: Dialog::CloseTerminal { terminal_id } });
        }
    }
}

/// A terminal with an agent is not closed before the user was asked: a request to
/// close it stops nothing and changes no terminal, dock or task.
pub proof fn law_agent_not_closed_unasked(
    before: BlackholesApp,
    after: BlackholesApp,
    terminal_id: Id,
)
    requires
        BlackholesApp::requests_close(before, after, terminal_id),
        terminal_at(before.session.terminals@, terminal_id) matches Some(at)
            && before.session.terminals@[at].agent != AgentKind::Shell,
    ensures
        after.session == before.session,
        after.tasks == before.tasks,
        after.running == before.running,
        forall|i: int|
            before.effects@.len() <= i < after.effects@.len() ==> (
            #[trigger] after.effects@[i]) !is StopTerminal,
{
}

/// Bringing a terminal to the user submits no work: no terminal is at work after
/// it that was not before.
pub proof fn law_focus_submits_nothing(
    before: BlackholesApp,
    after: BlackholesApp,
    terminal_id: Id,
)
    requires
        BlackholesApp::focuses_terminal(before, after, terminal_id),
    ensures
        after.session.terminals@.len() == before.session.terminals@.len(),
        forall|i: int|
            0 <= i < after.session.terminals@.len() ==> (
            #[trigger] after.session.terminals@[i]).state == before.session.terminals@[i].state
                || after.session.terminals@[i].state == SessionState::Idle,
{
    if let Some(at) = terminal_at(before.session.terminals@, terminal_id) {
        let terminal = before.session.terminals@[at];
        let (cleared, shown, entered) = choose|
            cleared: BlackholesApp,
            shown: BlackholesApp,
            entered: BlackholesApp,
        |
            {
                &&& #[trigger] BlackholesApp::clears_toasts(before, cleared, terminal_id)
                &&& #[trigger] BlackholesApp::shows_terminals(cleared, shown)
                &&& #[trigger] BlackholesApp::enters_terminal(shown, entered, terminal)
                &&& if before.running@.contains(terminal_id) {
                    BlackholesApp::greets_terminal(entered, after, terminal)
                } else {
                    BlackholesApp::restarts(entered, after, terminal_id)
                }
            };
        assert(entered.session.terminals == before.session.terminals);
        lemma_first_where(before.session.terminals@, crate::model::terminal_is(terminal_id), 0);
        lemma_first_where(before.session.terminals@, crate::model::terminal_is(terminal.id), 0);
    }
}

/// A terminal that was closed is nowhere any more: not among the terminals, in
/// no dock, not running, and in no notification.
pub proof fn law_closed_terminal(
    before: BlackholesApp,
    after: BlackholesApp,
    terminal_id: Id,
    refresh_git: bool,
)
    requires
        BlackholesApp::closes_terminal(before, after, terminal_id, refresh_git),
    ensures
        !after.running@.contains(terminal_id),
        terminal_at(after.session.terminals@, terminal_id) is None,
        forall|d: int, t: int|
            0 <= d < after.session.docks@.len() && 0 <= t
                < after.session.docks@[d].dock.tabs@.len() ==> !leaves(
                (#[trigger] after.session.docks@[d].dock.tabs@[t]).root,
            ).contains(terminal_id),
        forall|i: int|
            0 <= i < after.app_toasts@.len() ==> terminal_of(
                (#[trigger] after.app_toasts@[i]).target,
            ) != Some(terminal_id),
{
    let (inspected, dropped, noted) = choose|
        inspected: BlackholesApp,
        dropped: BlackholesApp,
        noted: BlackholesApp,
    |
        {
            &&& #[trigger] BlackholesApp::inspects_if(before, inspected, terminal_id, refresh_git)
            &&& #[trigger] BlackholesApp::drops_terminal(inspected, dropped, terminal_id)
            &&& #[trigger] BlackholesApp::notes_state(
                dropped,
                noted,
                terminal_id,
                SessionState::Exited,
            )
            &&& BlackholesApp::saves_and_draws(noted, after)
        };
    let keep = other_terminal(terminal_id);
    assert forall|i: int| 0 <= i < dropped.session.terminals@.len() implies (
    #[trigger] dropped.session.terminals@[i]).id != terminal_id by {
        inspected.session.terminals@.lemma_filter_pred(keep, i);
    }
    lemma_first_where(
        dropped.session.terminals@,
        crate::model::terminal_is(terminal_id),
        0,
    );
    lemma_first_where(
        noted.session.terminals@,
        crate::model::terminal_is(terminal_id),
        0,
    );
    assert forall|i: int| 0 <= i < after.running@.len() implies #[trigger] after.running@[i]
        != terminal_id by {
        inspected.running@.lemma_filter_pred(crate::ids::other_than(terminal_id), i);
    }
    assert forall|d: int, t: int|
        0 <= d < after.session.docks@.len() && 0 <= t
            < after.session.docks@[d].dock.tabs@.len() implies !leaves(
        (#[trigger] after.session.docks@[d].dock.tabs@[t]).root,
    ).contains(terminal_id) by {
        let entry = after.session.docks@[d];
        crate::dock::law_close_in_dock(
            inspected.session.docks@[d].dock,
            entry.dock,
            terminal_id,
        );
    }
    assert forall|i: int| 0 <= i < after.app_toasts@.len() implies terminal_of(
        (#[trigger] after.app_toasts@[i]).target,
    ) != Some(terminal_id) by {
        dropped.app_toasts@.lemma_filter_pred(
            crate::toasts::stays(ToastFilter::NotOfTerminal { terminal_id }),
            i,
        );
    }
}

// ---------------------------------------------------------------------------
// What a new terminal belongs to
// ---------------------------------------------------------------------------
/// The dock shows the terminal in a tab of its own that is the active one.
pub open spec fn docks_in_front(entry: DockEntry, terminal_id: Id) -> bool {
    &&& entry.dock.tabs@.len() > 0
    &&& entry.dock.tabs@.last().root == (DockNode::Panel { terminal_id })
    &&& entry.dock.tabs@.last().active_terminal_id == terminal_id
    &&& entry.dock.active_tab_id == Some(entry.dock.tabs@.last().id)
}

/// Opening a tab puts its terminal in front of the dock under the key.
proof fn lemma_tab_in_front(
    before: Seq<DockEntry>,
    after: Seq<DockEntry>,
    key: DockKey,
    tab: DockTab,
) -> (at: int)
    requires
        tab_opened(before, after, key, tab),
        tab.root == (DockNode::Panel { terminal_id: tab.active_terminal_id }),
    ensures
        0 <= at < after.len(),
        dock_at(after, key) == Some(at),
        after[at].key == key,
        docks_in_front(after[at], tab.active_terminal_id),
        tab_ids(after[at].dock.tabs@).no_duplicates() ==> front_terminal(after, key) == Some(
            tab.active_terminal_id,
        ),
        forall|i: int| 0 <= i < before.len() && i != at ==> after[i] == before[i],
{
    let wanted = entry_is(key);
    lemma_first_where(before, wanted, 0);
    lemma_first_where(after, wanted, 0);
    let at = match dock_at(before, key) {
        Some(at) => at,
        None => before.len() as int,
    };
    assert(wanted(after[at]));
    assert forall|i: int| 0 <= i < at implies !wanted(#[trigger] after[i]) by {
        assert(after[i] == before[i]);
    }
    let dock = after[at].dock;
    let last = dock.tabs@.len() - 1;
    lemma_first_where(dock.tabs@, tab_is(tab.id), 0);
    assert(tab_is(tab.id)(dock.tabs@[last]));
    if tab_ids(dock.tabs@).no_duplicates() {
        let found = first_where(dock.tabs@, tab_is(tab.id), 0)->0;
        assert(tab_ids(dock.tabs@)[found] == tab.id);
        assert(tab_ids(dock.tabs@)[last] == tab.id);
    }
    at
}

/// A terminal is started for what is selected, in the directory of that and with the
/// agent that was asked for, and nothing else is started.
pub proof fn law_started_for_selection(
    before: BlackholesApp,
    asked: BlackholesApp,
    agent: AgentKind,
    directory: Option<String>,
    config_dir: Option<String>,
) -> (terminal: TerminalDescriptor)
    requires
        BlackholesApp::begins_terminal(before, asked, agent, directory, config_dir),
        exists|i: int|
            0 <= i < before.workspaces@.len() && Some((#[trigger] before.workspaces@[i]).id)
                == before.session.selected_workspace_id,
        directory is Some,
    ensures
        BlackholesApp::asked(before, asked) == seq![
            Effect::StopWatching,
            Effect::Redraw,
            Effect::SpawnTerminal { descriptor: terminal },
        ],
        terminal.agent == agent,
        terminal.cwd@ == directory->0@,
        terminal.agent_config_dir == config_dir,
        Some(terminal.workspace_id) == before.session.selected_workspace_id,
        terminal.task_id == before.session.selected_task_id,
        terminal.repository_id == before.session.selected_repository_id,
        asked.session == before.session,
        asked.tasks == before.tasks,
        asked.running == before.running,
        asked.surface.show_terminal,
{
    let shown = choose|shown: BlackholesApp| #[trigger]
        BlackholesApp::shows_terminals(before, shown) && BlackholesApp::asks_for_terminal(
            shown,
            asked,
            agent,
            directory,
            config_dir,
        );
    let id = before.session.selected_workspace_id->0;
    lemma_first_where(before.workspaces@, crate::model::workspace_is(id), 0);
    assert(shown.workspace_selected() is Some);
    let terminal = choose|terminal: TerminalDescriptor| #[trigger]
        shown.is_new_terminal(terminal, agent, directory->0@, config_dir)
            && BlackholesApp::requests(
            shown,
            asked,
            seq![Effect::SpawnTerminal { descriptor: terminal }],
        );
    assert(BlackholesApp::asked(before, asked) =~= seq![
        Effect::StopWatching,
        Effect::Redraw,
        Effect::SpawnTerminal { descriptor: terminal },
    ]);
    terminal
}

/// A terminal whose process runs stands among the terminals and in front of the dock
/// of its project, task and repository; its task has a record of it; and the keyboard
/// goes to it. What is selected stays.
pub proof fn law_terminal_opened(before: BlackholesApp, after: BlackholesApp, terminal: TerminalDescriptor) -> (at:
    int)
    requires
        BlackholesApp::finishes_terminal(before, after, terminal, Ok(())),
    ensures
        after.session.terminals@ == before.session.terminals@.push(terminal),
        after.running@.contains(terminal.id),
        0 <= at < after.session.docks@.len(),
        after.session.docks@[at].key.workspace_id == terminal.workspace_id,
        after.session.docks@[at].key.task_id == terminal.task_id,
        after.session.docks@[at].key.repository_id == terminal.repository_id,
        docks_in_front(after.session.docks@[at], terminal.id),
        tab_ids(after.session.docks@[at].dock.tabs@).no_duplicates() ==> front_terminal(
            after.session.docks@,
            after.session.docks@[at].key,
        ) == Some(terminal.id),
        forall|i: int|
            0 <= i < before.session.docks@.len() && i != at ==> after.session.docks@[i]
                == before.session.docks@[i],
        after.session.selected_workspace_id == before.session.selected_workspace_id,
        after.session.selected_task_id == before.session.selected_task_id,
        after.session.selected_repository_id == before.session.selected_repository_id,
        BlackholesApp::asked(before, after).contains(
            Effect::FocusTerminal { terminal_id: terminal.id },
        ),
        terminal.task_id matches Some(task_id) ==> forall|at: int|
            #![trigger before.tasks@[at]]
            0 <= at < before.tasks@.len() && before.tasks@[at].id == task_id && (forall|i: int|
                0 <= i < at ==> (#[trigger] before.tasks@[i]).id != task_id) ==> {
                &&& after.tasks@[at].sessions@.len() == before.tasks@[at].sessions@.len() + 1
                &&& after.tasks@[at].sessions@.last().terminal_local_id == terminal.id
                &&& after.tasks@[at].sessions@.last().agent == terminal.agent
            },
        terminal.task_id is None ==> after.tasks@ == before.tasks@,
{
    let opened = choose|opened: BlackholesApp| #[trigger]
        BlackholesApp::opens_terminal(before, opened, terminal) && BlackholesApp::requests(
            opened,
            after,
            seq![
                opened.persists(),
                Effect::FocusTerminal { terminal_id: terminal.id },
                Effect::Redraw,
            ],
        );
    let (tab_id, added) = choose|tab_id: Id, added: BlackholesApp| #[trigger]
        BlackholesApp::adds_terminal(before, added, terminal, tab_id)
            && BlackholesApp::records_terminal(added, opened, terminal);
    let tab = choose|tab: DockTab| #[trigger]
        tab_opened(before.session.docks@, added.session.docks@, terminal.dock(), tab) && tab.title@
            == terminal.label@ && tab == (DockTab {
            id: tab_id,
            title: tab.title,
            root: DockNode::Panel { terminal_id: terminal.id },
            active_terminal_id: terminal.id,
        });
    let at = lemma_tab_in_front(
        before.session.docks@,
        added.session.docks@,
        terminal.dock(),
        tab,
    );
    let (session_id, now) = choose|session_id: Id, now: Time| #[trigger]
        BlackholesApp::records_terminal_at(added, opened, terminal, session_id, now);
    lemma_with_id(before.running@, terminal.id);
    if let Some(task_id) = terminal.task_id {
        lemma_first_where(before.tasks@, crate::model::task_is(task_id), 0);
        assert forall|at: int|
            #![trigger before.tasks@[at]]
            0 <= at < before.tasks@.len() && before.tasks@[at].id == task_id && (forall|i: int|
                0 <= i < at ==> (#[trigger] before.tasks@[i]).id != task_id) implies {
            &&& after.tasks@[at].sessions@.len() == before.tasks@[at].sessions@.len() + 1
            &&& after.tasks@[at].sessions@.last().terminal_local_id == terminal.id
            &&& after.tasks@[at].sessions@.last().agent == terminal.agent
        } by {
            assert(crate::model::task_is(task_id)(before.tasks@[at]));
        }
    }
    let place = after.effects@.len() - 2;
    let list = BlackholesApp::asked(before, after);
    assert(before.effects@.len() <= opened.effects@.len());
    assert(list[place - before.effects@.len()] == (Effect::FocusTerminal {
        terminal_id: terminal.id,
    }));
    at
}

/// What was started for the selection is what the selection shows once it runs: its
/// terminal is the one in front of the selected project, task and repository.
pub proof fn law_terminal_for_selection(
    before: BlackholesApp,
    asked: BlackholesApp,
    after: BlackholesApp,
    agent: AgentKind,
    directory: Option<String>,
    config_dir: Option<String>,
    terminal: TerminalDescriptor,
)
    requires
        BlackholesApp::begins_terminal(before, asked, agent, directory, config_dir),
        exists|i: int|
            0 <= i < before.workspaces@.len() && Some((#[trigger] before.workspaces@[i]).id)
                == before.session.selected_workspace_id,
        directory is Some,
        asked.effects@.last() == (Effect::SpawnTerminal { descriptor: terminal }),
        BlackholesApp::finishes_terminal(asked, after, terminal, Ok(())),
        forall|i: int|
            0 <= i < after.session.docks@.len() ==> tab_ids(
                (#[trigger] after.session.docks@[i]).dock.tabs@,
            ).no_duplicates(),
    ensures
        after.terminal_selected() == Some(terminal.id),
        after.session.terminals@ == before.session.terminals@.push(terminal),
{
    let started = law_started_for_selection(before, asked, agent, directory, config_dir);
    assert(asked.effects@.last() == BlackholesApp::asked(before, asked).last());
    let at = law_terminal_opened(asked, after, terminal);
}

/// Without a project, or without a directory for what is selected, nothing is
/// started and the user is told why.
pub proof fn law_no_terminal_without_directory(
    before: BlackholesApp,
    asked: BlackholesApp,
    agent: AgentKind,
    directory: Option<String>,
    config_dir: Option<String>,
)
    requires
        BlackholesApp::begins_terminal(before, asked, agent, directory, config_dir),
        before.session.selected_workspace_id is None || directory is None,
    ensures
        forall|i: int|
            0 <= i < BlackholesApp::asked(before, asked).len() ==> (
            #[trigger] BlackholesApp::asked(before, asked)[i]) !is SpawnTerminal,
        asked.status matches Some(status) && status.error,
        asked.session == before.session,
{
    let shown = choose|shown: BlackholesApp| #[trigger]
        BlackholesApp::shows_terminals(before, shown) && BlackholesApp::asks_for_terminal(
            shown,
            asked,
            agent,
            directory,
            config_dir,
        );
    assert(BlackholesApp::asked(before, asked) =~= seq![Effect::StopWatching, Effect::Redraw]
        + BlackholesApp::asked(shown, asked));
    assert(BlackholesApp::asked(shown, asked) =~= seq![
        Effect::ExpireStatus { revision: asked.status_revision },
        Effect::Redraw,
    ]);
}

/// An identifier that is put into a list is in it.
proof fn lemma_with_id(ids: Seq<Id>, id: Id)
    ensures
        with_id(ids, id).contains(id),
{
    if !ids.contains(id) {
        assert(ids.push(id)[ids.len() as int] == id);
    }
}

// ---------------------------------------------------------------------------
// Bringing a terminal to the user
// ---------------------------------------------------------------------------
/// A terminal that is brought to the user is in front: what it belongs to is selected
/// and expanded, the terminals are the page, and nothing tells of it any more. One that
/// runs gets the keyboard and no longer waits; any other is started.
pub proof fn law_terminal_focused(
    before: BlackholesApp,
    after: BlackholesApp,
    terminal_id: Id,
    at: int,
)
    requires
        BlackholesApp::focuses_terminal(before, after, terminal_id),
        crate::terminals::stands_at(before.session.terminals@, terminal_id, at),
    ensures
        after.session.selected_workspace_id == Some(before.session.terminals@[at].workspace_id),
        after.session.selected_task_id == before.session.terminals@[at].task_id,
        after.session.selected_repository_id == before.session.terminals@[at].repository_id,
        after.surface.show_terminal && !after.surface.show_settings
            && !after.surface.show_task_details && !after.surface.show_project_overview
            && after.surface.project_settings is None,
        after.surface_shown() is None,
        !after.file_explorer.open,
        after.running == before.running,
        after.quick_open == before.quick_open,
        before.running@.contains(terminal_id) ==> {
            &&& BlackholesApp::asked(before, after).contains(Effect::FocusTerminal { terminal_id })
            &&& after.session.terminals@[at].state == if before.session.terminals@[at].state
                == SessionState::Attention {
                SessionState::Idle
            } else {
                before.session.terminals@[at].state
            }
        },
        !before.running@.contains(terminal_id) ==> BlackholesApp::asked(before, after).contains(
            Effect::StartTerminal { terminal_id },
        ) && after.session.terminals == before.session.terminals,
{
    let terminal = before.session.terminals@[at];
    lemma_first_where(before.session.terminals@, crate::model::terminal_is(terminal_id), 0);
    assert(crate::model::terminal_is(terminal_id)(terminal));
    let (cleared, shown, entered) = choose|
        cleared: BlackholesApp,
        shown: BlackholesApp,
        entered: BlackholesApp,
    |
        {
            &&& #[trigger] BlackholesApp::clears_toasts(before, cleared, terminal_id)
            &&& #[trigger] BlackholesApp::shows_terminals(cleared, shown)
            &&& #[trigger] BlackholesApp::enters_terminal(shown, entered, terminal)
            &&& if before.running@.contains(terminal_id) {
                BlackholesApp::greets_terminal(entered, after, terminal)
            } else {
                BlackholesApp::restarts(entered, after, terminal_id)
            }
        };
    assert(entered.session.terminals == before.session.terminals);
    let asked = BlackholesApp::asked(before, after);
    if before.running@.contains(terminal_id) {
        let focused = choose|focused: BlackholesApp| #[trigger]
            BlackholesApp::requests(entered, focused, entered.focuses(terminal_id))
                && if terminal.state == SessionState::Attention {
                BlackholesApp::notes_and_draws(focused, after, terminal_id, SessionState::Idle)
            } else {
                BlackholesApp::saves_and_draws(focused, after)
            };
        assert(focused.effects@.last() == (Effect::FocusTerminal { terminal_id }));
        if terminal.state == SessionState::Attention {
            let noted = choose|noted: BlackholesApp| #[trigger]
                BlackholesApp::notes_state(focused, noted, terminal_id, SessionState::Idle)
                    && BlackholesApp::requests(noted, after, seq![Effect::Redraw]);
            let now = choose|now: Time| #[trigger]
                BlackholesApp::notes_state_at(focused, noted, terminal_id, SessionState::Idle, now);
            assert(BlackholesApp::notes_state_at(
                focused,
                noted,
                terminal_id,
                SessionState::Idle,
                now,
            ));
        }
        assert(asked[focused.effects@.len() - 1 - before.effects@.len()] == (Effect::FocusTerminal {
            terminal_id,
        }));
    } else {
        assert(asked.last() == (Effect::StartTerminal { terminal_id }));
    }
}

/// A terminal whose process started again runs, is at rest and gets the keyboard; one
/// whose process did not start is told of as an error, and nothing else changes.
pub proof fn law_terminal_restarted(
    before: BlackholesApp,
    after: BlackholesApp,
    terminal_id: Id,
    result: Result<(), String>,
    at: int,
)
    requires
        BlackholesApp::finishes_restart(before, after, terminal_id, result),
        crate::terminals::stands_at(before.session.terminals@, terminal_id, at),
    ensures
        result is Ok ==> {
            &&& after.running@.contains(terminal_id)
            &&& after.session.terminals@[at].state == SessionState::Idle
            &&& BlackholesApp::asked(before, after).contains(Effect::FocusTerminal { terminal_id })
        },
        result is Err ==> {
            &&& after.running == before.running
            &&& after.session == before.session
            &&& after.status matches Some(status) && status.error
        },
        forall|id: Id|
            before.running@.contains(id) ==> #[trigger] after.running@.contains(id),
{
    lemma_first_where(before.session.terminals@, crate::model::terminal_is(terminal_id), 0);
    assert(crate::model::terminal_is(terminal_id)(before.session.terminals@[at]));
    lemma_with_id(before.running@, terminal_id);
    crate::ids::law_insert_unique(before.running@, terminal_id);
    if result is Ok {
        let running = choose|running: BlackholesApp| #[trigger]
            BlackholesApp::runs(before, running, terminal_id) && BlackholesApp::resumes(
                running,
                after,
                terminal_id,
            );
        let (noted, focused) = choose|noted: BlackholesApp, focused: BlackholesApp| #[trigger]
            BlackholesApp::notes_state(running, noted, terminal_id, SessionState::Idle)
                && #[trigger] BlackholesApp::requests(noted, focused, noted.focuses(terminal_id))
                && BlackholesApp::saves_and_draws(focused, after);
        let now = choose|now: Time| #[trigger]
            BlackholesApp::notes_state_at(running, noted, terminal_id, SessionState::Idle, now);
        assert(BlackholesApp::notes_state_at(running, noted, terminal_id, SessionState::Idle, now));
        assert(focused.effects@.last() == (Effect::FocusTerminal { terminal_id }));
        assert(BlackholesApp::asked(before, after)[focused.effects@.len() - 1 - before.effects@.len()]
            == (Effect::FocusTerminal { terminal_id }));
    }
}

/// Closing a terminal stops its process, where it runs, and leaves every other
/// terminal as it is.
pub proof fn law_closing_keeps_others(
    before: BlackholesApp,
    after: BlackholesApp,
    terminal_id: Id,
    refresh_git: bool,
)
    requires
        BlackholesApp::closes_terminal(before, after, terminal_id, refresh_git),
    ensures
        forall|i: int|
            0 <= i < before.session.terminals@.len() && (#[trigger] before.session.terminals@[i]).id
                != terminal_id ==> after.session.terminals@.contains(before.session.terminals@[i]),
        forall|id: Id|
            id != terminal_id && before.running@.contains(id)
                ==> #[trigger] after.running@.contains(id),
        before.running@.contains(terminal_id) ==> BlackholesApp::asked(before, after).contains(
            Effect::StopTerminal { terminal_id },
        ),
        forall|i: int|
            before.effects@.len() <= i < after.effects@.len() && (
            #[trigger] after.effects@[i]) is StopTerminal ==> after.effects@[i] == (
            Effect::StopTerminal { terminal_id }),
{
    let (inspected, dropped, noted) = choose|
        inspected: BlackholesApp,
        dropped: BlackholesApp,
        noted: BlackholesApp,
    |
        {
            &&& #[trigger] BlackholesApp::inspects_if(before, inspected, terminal_id, refresh_git)
            &&& #[trigger] BlackholesApp::drops_terminal(inspected, dropped, terminal_id)
            &&& #[trigger] BlackholesApp::notes_state(
                dropped,
                noted,
                terminal_id,
                SessionState::Exited,
            )
            &&& BlackholesApp::saves_and_draws(noted, after)
        };
    let now = choose|now: Time| #[trigger]
        BlackholesApp::notes_state_at(dropped, noted, terminal_id, SessionState::Exited, now);
    assert(BlackholesApp::notes_state_at(dropped, noted, terminal_id, SessionState::Exited, now));
    let keep = other_terminal(terminal_id);
    assert forall|i: int| 0 <= i < dropped.session.terminals@.len() implies (
    #[trigger] dropped.session.terminals@[i]).id != terminal_id by {
        before.session.terminals@.lemma_filter_pred(keep, i);
    }
    lemma_first_where(dropped.session.terminals@, crate::model::terminal_is(terminal_id), 0);
    assert(after.session.terminals@ == dropped.session.terminals@);
    assert forall|i: int|
        0 <= i < before.session.terminals@.len() && (#[trigger] before.session.terminals@[i]).id
            != terminal_id implies after.session.terminals@.contains(before.session.terminals@[i]) by {
        before.session.terminals@.lemma_filter_contains(keep, i);
    }
    let running = before.running@;
    assert forall|id: Id| id != terminal_id && running.contains(id) implies #[trigger]
        after.running@.contains(id) by {
        let i = choose|i: int| 0 <= i < running.len() && running[i] == id;
        running.lemma_filter_contains(crate::ids::other_than(terminal_id), i);
    }
    if running.contains(terminal_id) {
        assert(dropped.effects@.last() == (Effect::StopTerminal { terminal_id }));
        assert(BlackholesApp::asked(before, after)[dropped.effects@.len() - 1 - before.effects@.len()]
            == (Effect::StopTerminal { terminal_id }));
    }
}

/// A shell is closed as soon as the user wants it; the user is asked before an agent is.
pub proof fn law_close_wanted(before: BlackholesApp, after: BlackholesApp, terminal_id: Id, at: int)
    requires
        BlackholesApp::requests_close(before, after, terminal_id),
        crate::terminals::stands_at(before.session.terminals@, terminal_id, at),
    ensures
        before.session.terminals@[at].agent == AgentKind::Shell ==> BlackholesApp::closes_terminal(
            before,
            after,
            terminal_id,
            true,
        ) && !after.running@.contains(terminal_id),
        before.session.terminals@[at].agent != AgentKind::Shell && before.has_workspace_webview
            ==> after.modals.agent_removal == Some(terminal_id) && BlackholesApp::asked(
            before,
            after,
        ).contains(Effect::ShowModal { kind: ModalKind::CloseTerminal { terminal_id } }),
        before.session.terminals@[at].agent != AgentKind::Shell && !before.has_workspace_webview
            ==> BlackholesApp::asked(before, after).contains(
            Effect::OpenDialog { dialog: Dialog::CloseTerminal { terminal_id } },
        ),
{
    lemma_first_where(before.session.terminals@, crate::model::terminal_is(terminal_id), 0);
    assert(crate::model::terminal_is(terminal_id)(before.session.terminals@[at]));
    if before.session.terminals@[at].agent == AgentKind::Shell {
        law_closed_terminal(before, after, terminal_id, true);
    } else {
        assert(BlackholesApp::asked(before, after)[0] == after.effects@[before.effects@.len() as int]);
    }
}

} // verus!
