//! Tasks and projects that go, and everything that goes with them.
use vstd::prelude::*;
use vstd::string::*;

use crate::app::{AppSession, AppToast, BlackholesApp, FileDocument, LegacyNote, Surface};
use crate::dock::{drop_docks_naming, drop_docks_of_project, not_naming, of_other_project};
use crate::effects::Effect;
use crate::ids::{contains_id, other_than, remove_id, without_id, Id};
use crate::model::{
    find_task, task_at, workspace_at, ProjectTask, TaskRepository, TerminalDescriptor, Workspace,
};
use crate::paths::{is_under, lies_under, places};
use crate::projects::{ids_where, terminal_ids_of, terminal_of_project, terminal_of_task};
use crate::search::{lemma_first_where, retain_where};
use crate::text::{join2, views};
use crate::toasts::{retain_toasts, stays, task_of, terminal_of, without_task, ToastFilter};

verus! {

// ---------------------------------------------------------------------------
// Tasks
// ---------------------------------------------------------------------------
/// The file lies in the folder.
pub open spec fn file_lies_under(file: Option<FileDocument>, folder: Seq<char>) -> bool {
    file matches Some(document) && is_under(document.root@, folder)
}

impl BlackholesApp {
    /// `after` is `before` without the file that lies in a folder.
    pub open spec fn leaves_file(before: Self, after: Self, folder: Seq<char>) -> bool {
        after == (BlackholesApp {
            active_file: if file_lies_under(before.active_file, folder) {
                None
            } else {
                before.active_file
            },
            ..before
        })
    }

    /// `after` is `before` without the explorer of a folder.
    pub open spec fn leaves_folder(before: Self, after: Self, folder: Seq<char>) -> bool {
        if before.file_explorer.root matches Some(root) && is_under(root@, folder) {
            Self::closes_explorer(before, after)
        } else {
            after == before
        }
    }

    /// The text for the removal of a task.
    pub open spec fn removal_text(&self) -> Seq<char> {
        self.text("Deleting task worktrees…"@, "Eliminando worktrees de la tarea…"@)
    }

    /// `after` is `before` with the removal of a task begun.
    pub open spec fn begins_removal(before: Self, after: Self, task_id: Id) -> bool {
        &&& after.busy matches Some(text) && text@ == before.removal_text()
        &&& after.effects@ == before.effects@ + seq![
            Effect::RemoveTaskFiles { task_id },
            Effect::Redraw,
        ]
        &&& after == (BlackholesApp { busy: after.busy, effects: after.effects, ..before })
    }

    /// `after` is `before` with everything of a task closed and its removal begun.
    pub open spec fn starts_removal(before: Self, after: Self, task_id: Id, folder: Seq<char>) -> bool {
        exists|closed: BlackholesApp, unfiled: BlackholesApp, left: BlackholesApp|
            {
                &&& #[trigger] Self::closes_all(
                    before,
                    closed,
                    terminal_ids_of(before.session.terminals@.filter(terminal_of_task(task_id))),
                    false,
                )
                &&& #[trigger] Self::leaves_file(closed, unfiled, folder)
                &&& #[trigger] Self::leaves_folder(unfiled, left, folder)
                &&& Self::begins_removal(left, after, task_id)
            }
    }

    /// Begins to remove a task: its terminals are closed, and what is shown of
    /// its worktrees goes. Nothing for an unknown task.
    pub fn start_remove_task(&mut self, task_id: Id) -> (started: bool)
        ensures
            match task_at(old(self).tasks@, task_id) {
                None => !started && *final(self) == *old(self),
                Some(at) => started && Self::starts_removal(
                    *old(self),
                    *final(self),
                    task_id,
                    old(self).tasks@[at].worktree_root_path@,
                ),
            },
    {
        let ghost before = *self;
        let folder: String = match find_task(&self.tasks, task_id) {
            Some(at) => self.tasks[at].worktree_root_path.clone(),
            None => {
                return false;
            },
        };
        let test = |terminal: &TerminalDescriptor| -> (kept: bool)
            ensures
                kept == (terminal.task_id == Some(task_id)),
        { terminal.task_id == Some(task_id) };
        let terminals = ids_where(
            &self.session.terminals,
            Ghost(terminal_of_task(task_id)),
            test,
        );
        self.close_all(&terminals, false);
        let ghost closed = *self;
        assert(Self::closes_all(
            before,
            closed,
            terminal_ids_of(before.session.terminals@.filter(terminal_of_task(task_id))),
            false,
        ));
        let shown: bool = match &self.active_file {
            Some(document) => lies_under(document.root.as_str(), folder.as_str()),
            None => false,
        };
        if shown {
            self.active_file = None;
        }
        let ghost unfiled = *self;
        assert(Self::leaves_file(closed, unfiled, folder@));
        let listed: bool = match &self.file_explorer.root {
            Some(root) => lies_under(root.as_str(), folder.as_str()),
            None => false,
        };
        if listed {
            self.close_file_explorer();
        }
        let ghost left = *self;
        assert(Self::leaves_folder(unfiled, left, folder@));
        self.emit(Effect::RemoveTaskFiles { task_id });
        self.busy = Some(
            self.tr(
                "Deleting task worktrees…",
                "Eliminando worktrees de la tarea…",
            ).to_string(),
        );
        self.notify();
        assert(self.effects@ =~= left.effects@ + seq![
            Effect::RemoveTaskFiles { task_id },
            Effect::Redraw,
        ]);
        assert(Self::begins_removal(left, *self, task_id));
        true
    }
}

/// The terminals that still run when some are stopped.
pub open spec fn left_running(running: Seq<Id>, stopped: Seq<Id>) -> Seq<Id>
    decreases stopped.len(),
{
    if stopped.len() == 0 {
        running
    } else {
        without_id(left_running(running, stopped.drop_last()), stopped.last())
    }
}

/// The requests to stop those of some terminals that run.
pub open spec fn stop_requests(running: Seq<Id>, stopped: Seq<Id>) -> Seq<Effect>
    decreases stopped.len(),
{
    if stopped.len() == 0 {
        Seq::empty()
    } else {
        let earlier = stopped.drop_last();
        stop_requests(running, earlier) + if left_running(running, earlier).contains(
            stopped.last(),
        ) {
            seq![Effect::StopTerminal { terminal_id: stopped.last() }]
        } else {
            Seq::empty()
        }
    }
}

/// The notification is about none of the terminals.
pub open spec fn about_none_of(terminals: Seq<Id>) -> spec_fn(AppToast) -> bool {
    |toast: AppToast|
        terminal_of(toast.target) matches Some(terminal_id) ==> !terminals.contains(terminal_id)
}

pub open spec fn other_task(task_id: Id) -> spec_fn(ProjectTask) -> bool {
    |task: ProjectTask| task.id != task_id
}

pub open spec fn note_of_other(task_id: Id) -> spec_fn(LegacyNote) -> bool {
    |note: LegacyNote| note.task_id != task_id
}

pub open spec fn terminal_of_other(task_id: Id) -> spec_fn(TerminalDescriptor) -> bool {
    |terminal: TerminalDescriptor| terminal.task_id != Some(task_id)
}

pub open spec fn worktree_paths(repositories: Seq<TaskRepository>) -> Seq<Seq<char>> {
    repositories.map_values(|repository: TaskRepository| repository.worktree_path@)
}

/// The worktrees of a task, none where it is unknown.
pub open spec fn worktrees_of(tasks: Seq<ProjectTask>, task_id: Id) -> Seq<Seq<char>> {
    match task_at(tasks, task_id) {
        Some(at) => worktree_paths(tasks[at].repositories@),
        None => Seq::empty(),
    }
}

impl BlackholesApp {
    /// `after` is `before` with the terminals stopped, and what was told of them gone.
    pub open spec fn stops_all(before: Self, after: Self, terminals: Seq<Id>) -> bool {
        &&& after.running@ == left_running(before.running@, terminals)
        &&& after.effects@ == before.effects@ + stop_requests(before.running@, terminals)
        &&& after.app_toasts@ == before.app_toasts@.filter(about_none_of(terminals))
        &&& after == (BlackholesApp {
            running: after.running,
            effects: after.effects,
            app_toasts: after.app_toasts,
            ..before
        })
    }

    fn stop_all(&mut self, terminals: &Vec<Id>)
        ensures
            Self::stops_all(*old(self), *final(self), terminals@),
    {
        let ghost before = *self;
        let mut index: usize = 0;
        assert(self.effects@ =~= before.effects@ + stop_requests(
            before.running@,
            terminals@.take(0),
        ));
        while index < terminals.len()
            invariant
                index <= terminals@.len(),
                self.running@ == left_running(before.running@, terminals@.take(index as int)),
                self.effects@ == before.effects@ + stop_requests(
                    before.running@,
                    terminals@.take(index as int),
                ),
                *self == (BlackholesApp {
                    running: self.running,
                    effects: self.effects,
                    ..before
                }),
            decreases terminals@.len() - index,
        {
            let terminal_id: Id = terminals[index];
            proof {
                let done = terminals@.take(index + 1);
                assert(done.drop_last() =~= terminals@.take(index as int));
                assert(done.last() == terminal_id);
            }
            let ghost earlier = self.effects@;
            if contains_id(&self.running, terminal_id) {
                remove_id(&mut self.running, terminal_id);
                self.emit(Effect::StopTerminal { terminal_id });
            } else {
                remove_id(&mut self.running, terminal_id);
            }
            index += 1;
            assert(self.effects@ =~= before.effects@ + stop_requests(
                before.running@,
                terminals@.take(index as int),
            ));
        }
        assert(terminals@.take(index as int) =~= terminals@);
        let test = |toast: &AppToast| -> (kept: bool)
            ensures
                kept == (terminal_of(toast.target) matches Some(terminal_id)
                    ==> !terminals@.contains(terminal_id)),
        {
            match toast.target.terminal_id() {
                Some(terminal_id) => !contains_id(terminals, terminal_id),
                None => true,
            }
        };
        retain_where(&mut self.app_toasts, Ghost(about_none_of(terminals@)), test);
    }

    /// `after` is `before` without a task and what is kept about it.
    pub open spec fn drops_task(before: Self, after: Self, task_id: Id) -> bool {
        &&& after.tasks@ == before.tasks@.filter(other_task(task_id))
        &&& after.app_toasts@ == without_task(before.app_toasts@, task_id)
        &&& after.task_legacy_notes@ == before.task_legacy_notes@.filter(note_of_other(task_id))
        &&& after.task_details_dirty@ == without_id(before.task_details_dirty@, task_id)
        &&& after.session.unseen_task_ids@ == without_id(before.session.unseen_task_ids@, task_id)
        &&& after.session.expanded_task_ids@ == without_id(
            before.session.expanded_task_ids@,
            task_id,
        )
        &&& after.session.terminals@ == before.session.terminals@.filter(terminal_of_other(task_id))
        &&& after.session.docks@ == before.session.docks@.filter(not_naming(task_id))
        &&& after == (BlackholesApp {
            tasks: after.tasks,
            app_toasts: after.app_toasts,
            task_legacy_notes: after.task_legacy_notes,
            task_details_dirty: after.task_details_dirty,
            session: AppSession {
                unseen_task_ids: after.session.unseen_task_ids,
                expanded_task_ids: after.session.expanded_task_ids,
                terminals: after.session.terminals,
                docks: after.session.docks,
                ..before.session
            },
            ..before
        })
    }

    fn drop_task(&mut self, task_id: Id)
        ensures
            Self::drops_task(*old(self), *final(self), task_id),
    {
        let other = |task: &ProjectTask| -> (kept: bool)
            ensures
                kept == (task.id != task_id),
        { task.id != task_id };
        retain_where(&mut self.tasks, Ghost(other_task(task_id)), other);
        remove_id(&mut self.session.unseen_task_ids, task_id);
        retain_toasts(&mut self.app_toasts, ToastFilter::NotOfTask { task_id });
        let noted = |note: &LegacyNote| -> (kept: bool)
            ensures
                kept == (note.task_id != task_id),
        { note.task_id != task_id };
        retain_where(&mut self.task_legacy_notes, Ghost(note_of_other(task_id)), noted);
        remove_id(&mut self.task_details_dirty, task_id);
        remove_id(&mut self.session.expanded_task_ids, task_id);
        let placed = |terminal: &TerminalDescriptor| -> (kept: bool)
            ensures
                kept == (terminal.task_id != Some(task_id)),
        { terminal.task_id != Some(task_id) };
        retain_where(&mut self.session.terminals, Ghost(terminal_of_other(task_id)), placed);
        drop_docks_naming(&mut self.session.docks, task_id);
    }

    /// `after` is `before` with no task selected.
    pub open spec fn unselects_task(before: Self, after: Self) -> bool {
        Self::closes_explorer(
            BlackholesApp {
                session: AppSession {
                    selected_task_id: None,
                    selected_repository_id: None,
                    ..before.session
                },
                ..before
            },
            after,
        )
    }

    /// `after` is `before` off a task that is gone.
    pub open spec fn leaves_task(before: Self, after: Self, task_id: Id) -> bool {
        if before.session.selected_task_id == Some(task_id) {
            Self::unselects_task(before, after)
        } else {
            after == before
        }
    }

    /// `after` is `before` with a task removed.
    pub open spec fn removes_task(before: Self, after: Self, task_id: Id) -> bool {
        exists|
            stopped: BlackholesApp,
            forgotten: BlackholesApp,
            dropped: BlackholesApp,
            left: BlackholesApp,
            saved: BlackholesApp,
        |
            {
                &&& #[trigger] Self::stops_all(
                    before,
                    stopped,
                    terminal_ids_of(before.session.terminals@.filter(terminal_of_task(task_id))),
                )
                &&& #[trigger] Self::forgets_worktrees(
                    stopped,
                    forgotten,
                    places(worktrees_of(before.tasks@, task_id)).to_set(),
                )
                &&& #[trigger] Self::drops_task(forgotten, dropped, task_id)
                &&& #[trigger] Self::leaves_task(dropped, left, task_id)
                &&& #[trigger] Self::requests(left, saved, seq![left.persists()])
                &&& Self::reports(
                    saved,
                    after,
                    "Task, terminals, and worktrees removed; Git branches were preserved"@,
                    false,
                )
            }
    }

    /// `after` is `before` with the outcome of removing a task.
    pub open spec fn finishes_removal(
        before: Self,
        after: Self,
        task_id: Id,
        result: Result<(), String>,
        stored: Result<(), String>,
    ) -> bool {
        match (result, stored) {
            (Err(error), _) => Self::reports(
                before.idle(),
                after,
                "Could not remove the task: "@ + error@,
                true,
            ),
            (Ok(_), Err(error)) => Self::reports(
                before.idle(),
                after,
                "Could not remove the task record: "@ + error@,
                true,
            ),
            (Ok(_), Ok(_)) => Self::removes_task(before.idle(), after, task_id),
        }
    }

    /// The files of a task were removed, or could not be; `stored` is what came of
    /// removing its record.
    pub fn finish_removed_task(
        &mut self,
        task_id: Id,
        result: Result<(), String>,
        stored: Result<(), String>,
    )
        ensures
            Self::finishes_removal(*old(self), *final(self), task_id, result, stored),
    {
        self.busy = None;
        if let Err(error) = result {
            let message = join2("Could not remove the task: ", error.as_str());
            self.set_status(message, true);
            return ;
        }
        if let Err(error) = stored {
            let message = join2("Could not remove the task record: ", error.as_str());
            self.set_status(message, true);
            return ;
        }
        self.remove_task(task_id);
    }

    fn remove_task(&mut self, task_id: Id)
        ensures
            Self::removes_task(*old(self), *final(self), task_id),
    {
        let ghost before = *self;
        let mut paths: Vec<String> = Vec::new();
        if let Some(at) = find_task(&self.tasks, task_id) {
            let mut index: usize = 0;
            while index < self.tasks[at].repositories.len()
                invariant
                    *self == before,
                    at < before.tasks@.len(),
                    index <= before.tasks@[at as int].repositories@.len(),
                    paths@.len() == index,
                    forall|i: int|
                        0 <= i < index ==> (#[trigger] paths@[i])@
                            == before.tasks@[at as int].repositories@[i].worktree_path@,
                decreases before.tasks@[at as int].repositories@.len() - index,
            {
                paths.push(self.tasks[at].repositories[index].worktree_path.clone());
                index += 1;
            }
        }
        assert(views(paths@) =~= worktrees_of(before.tasks@, task_id));
        let test = |terminal: &TerminalDescriptor| -> (kept: bool)
            ensures
                kept == (terminal.task_id == Some(task_id)),
        { terminal.task_id == Some(task_id) };
        let terminals = ids_where(
            &self.session.terminals,
            Ghost(terminal_of_task(task_id)),
            test,
        );
        self.stop_all(&terminals);
        let ghost stopped = *self;
        assert(Self::stops_all(
            before,
            stopped,
            terminal_ids_of(before.session.terminals@.filter(terminal_of_task(task_id))),
        ));
        self.forget_worktrees(&paths);
        let ghost forgotten = *self;
        assert(Self::forgets_worktrees(
            stopped,
            forgotten,
            places(worktrees_of(before.tasks@, task_id)).to_set(),
        ));
        self.drop_task(task_id);
        let ghost dropped = *self;
        assert(Self::drops_task(forgotten, dropped, task_id));
        if self.session.selected_task_id == Some(task_id) {
            self.session.selected_task_id = None;
            self.session.selected_repository_id = None;
            self.close_file_explorer();
        }
        let ghost left = *self;
        assert(Self::leaves_task(dropped, left, task_id));
        self.persist_session();
        assert(Self::requests(left, *self, seq![left.persists()]));
        self.set_status(
            "Task, terminals, and worktrees removed; Git branches were preserved".to_string(),
            false,
        );
    }
}

// ---------------------------------------------------------------------------
// Projects
// ---------------------------------------------------------------------------
pub open spec fn other_workspace(workspace_id: Id) -> spec_fn(Workspace) -> bool {
    |workspace: Workspace| workspace.id != workspace_id
}

pub open spec fn task_of_other_project(workspace_id: Id) -> spec_fn(ProjectTask) -> bool {
    |task: ProjectTask| task.workspace_id != workspace_id
}

/// The task is one of the project.
pub open spec fn is_task_of(tasks: Seq<ProjectTask>, workspace_id: Id, task_id: Id) -> bool {
    exists|i: int|
        0 <= i < tasks.len() && (#[trigger] tasks[i]).workspace_id == workspace_id && tasks[i].id
            == task_id
}

fn is_project_task(tasks: &Vec<ProjectTask>, workspace_id: Id, task_id: Id) -> (result: bool)
    ensures
        result == is_task_of(tasks@, workspace_id, task_id),
{
    let mut index: usize = 0;
    while index < tasks.len()
        invariant
            index <= tasks@.len(),
            forall|i: int|
                0 <= i < index ==> !((#[trigger] tasks@[i]).workspace_id == workspace_id
                    && tasks@[i].id == task_id),
        decreases tasks@.len() - index,
    {
        if tasks[index].workspace_id == workspace_id && tasks[index].id == task_id {
            return true;
        }
        index += 1;
    }
    false
}

pub open spec fn note_outside(tasks: Seq<ProjectTask>, workspace_id: Id) -> spec_fn(LegacyNote) -> bool {
    |note: LegacyNote| !is_task_of(tasks, workspace_id, note.task_id)
}

pub open spec fn id_outside(tasks: Seq<ProjectTask>, workspace_id: Id) -> spec_fn(Id) -> bool {
    |task_id: Id| !is_task_of(tasks, workspace_id, task_id)
}

/// The first of the projects.
pub open spec fn first_workspace(workspaces: Seq<Workspace>) -> Option<Id> {
    if workspaces.len() == 0 {
        None
    } else {
        Some(workspaces[0].id)
    }
}

impl BlackholesApp {
    /// Begins to remove a project from the application: its terminals are closed,
    /// and its record is to be removed.
    pub fn remove_project_reference(&mut self, workspace_id: Id)
        ensures
            exists|closed: BlackholesApp| #[trigger]
                Self::closes_all(
                    *old(self),
                    closed,
                    terminal_ids_of(
                        old(self).session.terminals@.filter(terminal_of_project(workspace_id)),
                    ),
                    true,
                ) && Self::requests(
                    closed,
                    *final(self),
                    seq![Effect::RemoveProjectRecord { workspace_id }],
                ),
    {
        let ghost before = *self;
        let test = |terminal: &TerminalDescriptor| -> (kept: bool)
            ensures
                kept == (terminal.workspace_id == workspace_id),
        { terminal.workspace_id == workspace_id };
        let terminals = ids_where(
            &self.session.terminals,
            Ghost(terminal_of_project(workspace_id)),
            test,
        );
        self.close_all(&terminals, true);
        assert(Self::closes_all(
            before,
            *self,
            terminal_ids_of(before.session.terminals@.filter(terminal_of_project(workspace_id))),
            true,
        ));
        self.emit(Effect::RemoveProjectRecord { workspace_id });
    }

    /// `after` is `before` without a project, its tasks and what is kept about them.
    pub open spec fn drops_project(before: Self, after: Self, workspace_id: Id) -> bool {
        &&& after.workspaces@ == before.workspaces@.filter(other_workspace(workspace_id))
        &&& after.tasks@ == before.tasks@.filter(task_of_other_project(workspace_id))
        &&& after.task_legacy_notes@ == before.task_legacy_notes@.filter(
            note_outside(before.tasks@, workspace_id),
        )
        &&& after.surface == (Surface {
            show_project_overview: false,
            show_task_details: false,
            show_terminal: false,
            project_settings: if before.surface.project_settings == Some(workspace_id) {
                None
            } else {
                before.surface.project_settings
            },
            ..before.surface
        })
        &&& after.session.expanded_workspace_ids@ == without_id(
            before.session.expanded_workspace_ids@,
            workspace_id,
        )
        &&& after.session.expanded_task_ids@ == before.session.expanded_task_ids@.filter(
            id_outside(before.tasks@, workspace_id),
        )
        &&& after.session.docks@ == before.session.docks@.filter(of_other_project(workspace_id))
        &&& after == (BlackholesApp {
            workspaces: after.workspaces,
            tasks: after.tasks,
            task_legacy_notes: after.task_legacy_notes,
            surface: after.surface,
            session: AppSession {
                expanded_workspace_ids: after.session.expanded_workspace_ids,
                expanded_task_ids: after.session.expanded_task_ids,
                docks: after.session.docks,
                selected_workspace_id: first_workspace(after.workspaces@),
                selected_task_id: None,
                selected_repository_id: None,
                ..before.session
            },
            ..before
        })
    }

    fn drop_project(&mut self, workspace_id: Id)
        ensures
            Self::drops_project(*old(self), *final(self), workspace_id),
    {
        let ghost before = *self;
        let tasks = &self.tasks;
        let noted = |note: &LegacyNote| -> (kept: bool)
            ensures
                kept == !is_task_of(tasks@, workspace_id, note.task_id),
        { !is_project_task(tasks, workspace_id, note.task_id) };
        retain_where(
            &mut self.task_legacy_notes,
            Ghost(note_outside(before.tasks@, workspace_id)),
            noted,
        );
        let expanded = |task_id: &Id| -> (kept: bool)
            ensures
                kept == !is_task_of(tasks@, workspace_id, *task_id),
        { !is_project_task(tasks, workspace_id, *task_id) };
        retain_where(
            &mut self.session.expanded_task_ids,
            Ghost(id_outside(before.tasks@, workspace_id)),
            expanded,
        );
        let other = |workspace: &Workspace| -> (kept: bool)
            ensures
                kept == (workspace.id != workspace_id),
        { workspace.id != workspace_id };
        retain_where(&mut self.workspaces, Ghost(other_workspace(workspace_id)), other);
        let placed = |task: &ProjectTask| -> (kept: bool)
            ensures
                kept == (task.workspace_id != workspace_id),
        { task.workspace_id != workspace_id };
        retain_where(&mut self.tasks, Ghost(task_of_other_project(workspace_id)), placed);
        self.surface.show_project_overview = false;
        self.surface.show_task_details = false;
        self.surface.show_terminal = false;
        if self.surface.project_settings == Some(workspace_id) {
            self.surface.project_settings = None;
        }
        remove_id(&mut self.session.expanded_workspace_ids, workspace_id);
        drop_docks_of_project(&mut self.session.docks, workspace_id);
        self.session.selected_workspace_id =
        if self.workspaces.len() == 0 {
            None
        } else {
            Some(self.workspaces[0].id)
        };
        self.session.selected_task_id = None;
        self.session.selected_repository_id = None;
    }

    /// `after` is `before` with a project removed from the application.
    pub open spec fn removes_project(before: Self, after: Self, workspace_id: Id) -> bool {
        exists|
            dropped: BlackholesApp,
            flushed: BlackholesApp,
            closed: BlackholesApp,
            saved: BlackholesApp,
        |
            {
                &&& #[trigger] Self::drops_project(before, dropped, workspace_id)
                &&& #[trigger] Self::flushes(dropped, flushed)
                &&& #[trigger] Self::closes_explorer(
                    BlackholesApp { active_file: None, ..flushed },
                    closed,
                )
                &&& #[trigger] Self::requests(closed, saved, seq![closed.persists()])
                &&& Self::reports(
                    saved,
                    after,
                    "Project reference removed; files on disk were not touched"@,
                    false,
                )
            }
    }

    /// The record of a project was removed, or could not be.
    pub fn finish_project_removal(&mut self, workspace_id: Id, stored: Result<(), String>) -> (removed:
        bool)
        ensures
            removed == stored is Ok,
            match stored {
                Ok(_) => Self::removes_project(*old(self), *final(self), workspace_id),
                Err(error) => Self::reports(
                    *old(self),
                    *final(self),
                    "Could not remove the project reference: "@ + error@,
                    true,
                ),
            },
    {
        let ghost before = *self;
        if let Err(error) = stored {
            let message = join2("Could not remove the project reference: ", error.as_str());
            self.set_status(message, true);
            return false;
        }
        self.drop_project(workspace_id);
        let ghost dropped = *self;
        assert(Self::drops_project(before, dropped, workspace_id));
        self.flush_active_file();
        let ghost flushed = *self;
        assert(Self::flushes(dropped, flushed));
        self.active_file = None;
        assert(*self == (BlackholesApp { active_file: None, ..flushed }));
        self.close_file_explorer();
        let ghost closed = *self;
        assert(Self::closes_explorer(BlackholesApp { active_file: None, ..flushed }, closed));
        self.persist_session();
        assert(Self::requests(closed, *self, seq![closed.persists()]));
        self.set_status(
            "Project reference removed; files on disk were not touched".to_string(),
            false,
        );
        true
    }
}

// ---------------------------------------------------------------------------
// Laws
// ---------------------------------------------------------------------------
/// A task that was removed is nowhere any more: not among the tasks, not
/// selected, and in no terminal, dock, note or notification.
pub proof fn law_removed_task(before: BlackholesApp, after: BlackholesApp, task_id: Id)
    requires
        BlackholesApp::removes_task(before, after, task_id),
    ensures
        task_at(after.tasks@, task_id) is None,
        after.session.selected_task_id != Some(task_id),
        !after.session.unseen_task_ids@.contains(task_id),
        !after.session.expanded_task_ids@.contains(task_id),
        !after.task_details_dirty@.contains(task_id),
        forall|i: int|
            0 <= i < after.session.terminals@.len() ==> (
            #[trigger] after.session.terminals@[i]).task_id != Some(task_id),
        forall|i: int|
            0 <= i < after.session.docks@.len() ==> !(
            #[trigger] after.session.docks@[i]).key.names(task_id),
        forall|i: int|
            0 <= i < after.task_legacy_notes@.len() ==> (
            #[trigger] after.task_legacy_notes@[i]).task_id != task_id,
        forall|i: int|
            0 <= i < after.app_toasts@.len() ==> task_of((#[trigger] after.app_toasts@[i]).target)
                != Some(task_id),
{
    let (stopped, forgotten, dropped, left, saved) = choose|
        stopped: BlackholesApp,
        forgotten: BlackholesApp,
        dropped: BlackholesApp,
        left: BlackholesApp,
        saved: BlackholesApp,
    |
        {
            &&& #[trigger] BlackholesApp::stops_all(
                before,
                stopped,
                terminal_ids_of(before.session.terminals@.filter(terminal_of_task(task_id))),
            )
            &&& #[trigger] BlackholesApp::forgets_worktrees(
                stopped,
                forgotten,
                places(worktrees_of(before.tasks@, task_id)).to_set(),
            )
            &&& #[trigger] BlackholesApp::drops_task(forgotten, dropped, task_id)
            &&& #[trigger] BlackholesApp::leaves_task(dropped, left, task_id)
            &&& #[trigger] BlackholesApp::requests(left, saved, seq![left.persists()])
            &&& BlackholesApp::reports(
                saved,
                after,
                "Task, terminals, and worktrees removed; Git branches were preserved"@,
                false,
            )
        };
    broadcast use Seq::lemma_filter_pred;

    assert(forall|i: int|
        0 <= i < after.tasks@.len() ==> other_task(task_id)(#[trigger] after.tasks@[i]));
    if task_at(after.tasks@, task_id) is Some {
        lemma_first_where(after.tasks@, crate::model::task_is(task_id), 0);
    }
    assert(forall|i: int|
        0 <= i < after.session.unseen_task_ids@.len() ==> other_than(task_id)(
            #[trigger] after.session.unseen_task_ids@[i],
        ));
    assert(forall|i: int|
        0 <= i < after.session.expanded_task_ids@.len() ==> other_than(task_id)(
            #[trigger] after.session.expanded_task_ids@[i],
        ));
    assert(forall|i: int|
        0 <= i < after.task_details_dirty@.len() ==> other_than(task_id)(
            #[trigger] after.task_details_dirty@[i],
        ));
    assert(forall|i: int|
        0 <= i < after.session.terminals@.len() ==> terminal_of_other(task_id)(
            #[trigger] after.session.terminals@[i],
        ));
    assert(forall|i: int|
        0 <= i < after.session.docks@.len() ==> not_naming(task_id)(
            #[trigger] after.session.docks@[i],
        ));
    assert(forall|i: int|
        0 <= i < after.task_legacy_notes@.len() ==> note_of_other(task_id)(
            #[trigger] after.task_legacy_notes@[i],
        ));
    assert(forall|i: int|
        0 <= i < after.app_toasts@.len() ==> stays(ToastFilter::NotOfTask { task_id })(
            #[trigger] after.app_toasts@[i],
        ));
}

/// A project that was removed is nowhere any more: not among the projects, and
/// neither it nor any task of it is selected, listed, noted or docked.
pub proof fn law_removed_project(before: BlackholesApp, after: BlackholesApp, workspace_id: Id)
    requires
        BlackholesApp::removes_project(before, after, workspace_id),
    ensures
        workspace_at(after.workspaces@, workspace_id) is None,
        after.session.selected_workspace_id != Some(workspace_id),
        after.session.selected_task_id is None,
        !after.session.expanded_workspace_ids@.contains(workspace_id),
        forall|i: int|
            0 <= i < after.tasks@.len() ==> (#[trigger] after.tasks@[i]).workspace_id
                != workspace_id,
        forall|i: int|
            0 <= i < after.session.docks@.len() ==> (
            #[trigger] after.session.docks@[i]).key.workspace_id != workspace_id,
        forall|i: int|
            0 <= i < after.session.expanded_task_ids@.len() ==> !is_task_of(
                before.tasks@,
                workspace_id,
                #[trigger] after.session.expanded_task_ids@[i],
            ),
        forall|i: int|
            0 <= i < after.task_legacy_notes@.len() ==> !is_task_of(
                before.tasks@,
                workspace_id,
                (#[trigger] after.task_legacy_notes@[i]).task_id,
            ),
{
    let (dropped, flushed, closed, saved) = choose|
        dropped: BlackholesApp,
        flushed: BlackholesApp,
        closed: BlackholesApp,
        saved: BlackholesApp,
    |
        {
            &&& #[trigger] BlackholesApp::drops_project(before, dropped, workspace_id)
            &&& #[trigger] BlackholesApp::flushes(dropped, flushed)
            &&& #[trigger] BlackholesApp::closes_explorer(
                BlackholesApp { active_file: None, ..flushed },
                closed,
            )
            &&& #[trigger] BlackholesApp::requests(closed, saved, seq![closed.persists()])
            &&& BlackholesApp::reports(
                saved,
                after,
                "Project reference removed; files on disk were not touched"@,
                false,
            )
        };
    broadcast use Seq::lemma_filter_pred;

    assert(forall|i: int|
        0 <= i < after.workspaces@.len() ==> other_workspace(workspace_id)(
            #[trigger] after.workspaces@[i],
        ));
    if workspace_at(after.workspaces@, workspace_id) is Some {
        lemma_first_where(after.workspaces@, crate::model::workspace_is(workspace_id), 0);
    }
    assert(forall|i: int|
        0 <= i < after.tasks@.len() ==> task_of_other_project(workspace_id)(
            #[trigger] after.tasks@[i],
        ));
    assert(forall|i: int|
        0 <= i < after.session.docks@.len() ==> of_other_project(workspace_id)(
            #[trigger] after.session.docks@[i],
        ));
    assert(forall|i: int|
        0 <= i < after.session.expanded_workspace_ids@.len() ==> other_than(workspace_id)(
            #[trigger] after.session.expanded_workspace_ids@[i],
        ));
    assert(forall|i: int|
        0 <= i < after.session.expanded_task_ids@.len() ==> id_outside(before.tasks@, workspace_id)(
            #[trigger] after.session.expanded_task_ids@[i],
        ));
    assert(forall|i: int|
        0 <= i < after.task_legacy_notes@.len() ==> note_outside(before.tasks@, workspace_id)(
            #[trigger] after.task_legacy_notes@[i],
        ));
}

/// Removing a task leaves every other task, and every terminal of another, as it is;
/// the processes of its terminals are stopped and no others.
pub proof fn law_other_tasks_stay(before: BlackholesApp, after: BlackholesApp, task_id: Id)
    requires
        BlackholesApp::removes_task(before, after, task_id),
    ensures
        forall|i: int|
            0 <= i < before.tasks@.len() && (#[trigger] before.tasks@[i]).id != task_id
                ==> after.tasks@.contains(before.tasks@[i]),
        forall|i: int|
            0 <= i < before.session.terminals@.len() && (
            #[trigger] before.session.terminals@[i]).task_id != Some(task_id)
                ==> after.session.terminals@.contains(before.session.terminals@[i]),
        forall|i: int|
            0 <= i < before.session.terminals@.len() && (
            #[trigger] before.session.terminals@[i]).task_id == Some(task_id)
                ==> !after.running@.contains(before.session.terminals@[i].id),
        forall|id: Id|
            before.running@.contains(id) && (forall|i: int|
                0 <= i < before.session.terminals@.len() && (
                #[trigger] before.session.terminals@[i]).id == id
                    ==> before.session.terminals@[i].task_id != Some(task_id))
                ==> #[trigger] after.running@.contains(id),
        before.session.selected_task_id != Some(task_id) ==> after.session.selected_task_id
            == before.session.selected_task_id,
        after.workspaces == before.workspaces,
        after.status matches Some(status) && !status.error,
{
    let owned = before.session.terminals@.filter(terminal_of_task(task_id));
    let ids = terminal_ids_of(owned);
    let (stopped, forgotten, dropped, left, saved) = choose|
        stopped: BlackholesApp,
        forgotten: BlackholesApp,
        dropped: BlackholesApp,
        left: BlackholesApp,
        saved: BlackholesApp,
    |
        {
            &&& #[trigger] BlackholesApp::stops_all(before, stopped, ids)
            &&& #[trigger] BlackholesApp::forgets_worktrees(
                stopped,
                forgotten,
                places(worktrees_of(before.tasks@, task_id)).to_set(),
            )
            &&& #[trigger] BlackholesApp::drops_task(forgotten, dropped, task_id)
            &&& #[trigger] BlackholesApp::leaves_task(dropped, left, task_id)
            &&& #[trigger] BlackholesApp::requests(left, saved, seq![left.persists()])
            &&& BlackholesApp::reports(
                saved,
                after,
                "Task, terminals, and worktrees removed; Git branches were preserved"@,
                false,
            )
        };
    assert(after.tasks == dropped.tasks);
    assert(after.session.terminals == dropped.session.terminals);
    assert(after.running == stopped.running);
    assert forall|i: int|
        0 <= i < before.tasks@.len() && (#[trigger] before.tasks@[i]).id != task_id implies
        after.tasks@.contains(before.tasks@[i]) by {
        before.tasks@.lemma_filter_contains(other_task(task_id), i);
    }
    assert forall|i: int|
        0 <= i < before.session.terminals@.len() && (
        #[trigger] before.session.terminals@[i]).task_id != Some(task_id) implies
        after.session.terminals@.contains(before.session.terminals@[i]) by {
        before.session.terminals@.lemma_filter_contains(terminal_of_other(task_id), i);
    }
    assert forall|i: int|
        0 <= i < before.session.terminals@.len() && (
        #[trigger] before.session.terminals@[i]).task_id == Some(task_id) implies
        !after.running@.contains(before.session.terminals@[i].id) by {
        before.session.terminals@.lemma_filter_contains(terminal_of_task(task_id), i);
        let k = choose|k: int| 0 <= k < owned.len() && owned[k] == before.session.terminals@[i];
        assert(ids[k] == before.session.terminals@[i].id);
        lemma_left_running(before.running@, ids, before.session.terminals@[i].id);
    }
    assert forall|id: Id|
        before.running@.contains(id) && (forall|i: int|
            0 <= i < before.session.terminals@.len() && (
            #[trigger] before.session.terminals@[i]).id == id
                ==> before.session.terminals@[i].task_id != Some(task_id)) implies
        #[trigger] after.running@.contains(id) by {
        lemma_left_running(before.running@, ids, id);
        if ids.contains(id) {
            let k = choose|k: int| 0 <= k < ids.len() && ids[k] == id;
            before.session.terminals@.lemma_filter_pred(terminal_of_task(task_id), k);
            lemma_filter_within(before.session.terminals@, terminal_of_task(task_id), owned[k]);
            let i = choose|i: int|
                0 <= i < before.session.terminals@.len() && before.session.terminals@[i]
                    == owned[k];
            assert(before.session.terminals@[i].id == id);
        }
    }
}

/// What is left running is what ran and was not stopped.
proof fn lemma_left_running(running: Seq<Id>, stopped: Seq<Id>, id: Id)
    ensures
        left_running(running, stopped).contains(id) <==> running.contains(id) && !stopped.contains(
            id,
        ),
    decreases stopped.len(),
{
    if stopped.len() > 0 {
        let fewer = stopped.drop_last();
        lemma_left_running(running, fewer, id);
        let earlier = left_running(running, fewer);
        let left = left_running(running, stopped);
        if stopped.contains(id) {
            let k = choose|k: int| 0 <= k < stopped.len() && stopped[k] == id;
            if k < fewer.len() {
                assert(fewer[k] == id);
            }
        }
        if fewer.contains(id) {
            let k = choose|k: int| 0 <= k < fewer.len() && fewer[k] == id;
            assert(stopped[k] == id);
        }
        assert(stopped[stopped.len() - 1] == stopped.last());
        if left.contains(id) {
            let k = choose|k: int| 0 <= k < left.len() && left[k] == id;
            earlier.lemma_filter_pred(other_than(stopped.last()), k);
            lemma_filter_within(earlier, other_than(stopped.last()), id);
        }
        if earlier.contains(id) && id != stopped.last() {
            let k = choose|k: int| 0 <= k < earlier.len() && earlier[k] == id;
            earlier.lemma_filter_contains(other_than(stopped.last()), k);
        }
    }
}

/// What a filter keeps was there.
proof fn lemma_filter_within<A>(all: Seq<A>, keep: spec_fn(A) -> bool, item: A)
    requires
        all.filter(keep).contains(item),
    ensures
        all.contains(item),
    decreases all.len(),
{
    reveal(Seq::filter);
    if all.len() > 0 {
        let fewer = all.drop_last();
        assert(all[all.len() - 1] == all.last());
        if fewer.filter(keep).contains(item) {
            lemma_filter_within(fewer, keep, item);
            let i = choose|i: int| 0 <= i < fewer.len() && fewer[i] == item;
            assert(all[i] == item);
        } else {
            let k = choose|k: int| 0 <= k < all.filter(keep).len() && all.filter(keep)[k] == item;
            if keep(all.last()) && k == fewer.filter(keep).len() {
                assert(item == all.last());
            } else {
                assert(fewer.filter(keep)[k] == item);
            }
        }
    }
}

/// Removing a project leaves every other project and its tasks as they are, and selects
/// the first project that is left; what was typed is handed over for saving.
pub proof fn law_other_projects_stay(before: BlackholesApp, after: BlackholesApp, workspace_id: Id)
    requires
        BlackholesApp::removes_project(before, after, workspace_id),
    ensures
        forall|i: int|
            0 <= i < before.workspaces@.len() && (#[trigger] before.workspaces@[i]).id
                != workspace_id ==> after.workspaces@.contains(before.workspaces@[i]),
        forall|i: int|
            0 <= i < before.tasks@.len() && (#[trigger] before.tasks@[i]).workspace_id
                != workspace_id ==> after.tasks@.contains(before.tasks@[i]),
        after.workspaces@.len() > 0 ==> after.session.selected_workspace_id == Some(
            after.workspaces@[0].id,
        ),
        after.workspaces@.len() == 0 ==> after.session.selected_workspace_id is None,
        after.active_file is None,
        !after.file_explorer.open,
        (before.active_file matches Some(file) && file.dirty && file.editor is Some)
            ==> crate::documents::saves_text(
            after.effects@[before.effects@.len() as int],
            before.active_file->0,
        ),
        after.status matches Some(status) && !status.error,
{
    let (dropped, flushed, closed, saved) = choose|
        dropped: BlackholesApp,
        flushed: BlackholesApp,
        closed: BlackholesApp,
        saved: BlackholesApp,
    |
        {
            &&& #[trigger] BlackholesApp::drops_project(before, dropped, workspace_id)
            &&& #[trigger] BlackholesApp::flushes(dropped, flushed)
            &&& #[trigger] BlackholesApp::closes_explorer(
                BlackholesApp { active_file: None, ..flushed },
                closed,
            )
            &&& #[trigger] BlackholesApp::requests(closed, saved, seq![closed.persists()])
            &&& BlackholesApp::reports(
                saved,
                after,
                "Project reference removed; files on disk were not touched"@,
                false,
            )
        };
    assert(after.workspaces == dropped.workspaces && after.tasks == dropped.tasks);
    assert forall|i: int|
        0 <= i < before.workspaces@.len() && (#[trigger] before.workspaces@[i]).id
            != workspace_id implies after.workspaces@.contains(before.workspaces@[i]) by {
        before.workspaces@.lemma_filter_contains(other_workspace(workspace_id), i);
    }
    assert forall|i: int|
        0 <= i < before.tasks@.len() && (#[trigger] before.tasks@[i]).workspace_id
            != workspace_id implies after.tasks@.contains(before.tasks@[i]) by {
        before.tasks@.lemma_filter_contains(task_of_other_project(workspace_id), i);
    }
    let flush = crate::documents::flush_requests(before.active_file);
    if flush.len() > 0 {
        assert(flushed.effects@[before.effects@.len() as int] == flush[0]);
        assert(after.effects@[before.effects@.len() as int] == flush[0]);
    }
}

/// The files of a task are asked to go once its terminals are closed, and nothing else
/// is done meanwhile.
pub proof fn law_task_removal_started(
    before: BlackholesApp,
    after: BlackholesApp,
    task_id: Id,
    folder: Seq<char>,
    terminal: int,
)
    requires
        BlackholesApp::starts_removal(before, after, task_id, folder),
        0 <= terminal < before.session.terminals@.len(),
    ensures
        after.busy is Some,
        after.effects@.len() >= 2 && after.effects@[after.effects@.len() - 2] == (
        Effect::RemoveTaskFiles { task_id }),
        before.session.terminals@[terminal].task_id == Some(task_id) ==> forall|k: int|
            0 <= k < after.session.terminals@.len() ==> (#[trigger] after.session.terminals@[k]).id
                != before.session.terminals@[terminal].id,
        after.active_file matches Some(file) ==> !is_under(file.root@, folder),
        after.file_explorer.root matches Some(root) ==> !is_under(root@, folder),
{
    let keep = terminal_of_task(task_id);
    let owned = before.session.terminals@.filter(keep);
    let ids = terminal_ids_of(owned);
    let (closed, unfiled, left) = choose|
        closed: BlackholesApp,
        unfiled: BlackholesApp,
        left: BlackholesApp,
    |
        {
            &&& #[trigger] BlackholesApp::closes_all(before, closed, ids, false)
            &&& #[trigger] BlackholesApp::leaves_file(closed, unfiled, folder)
            &&& #[trigger] BlackholesApp::leaves_folder(unfiled, left, folder)
            &&& BlackholesApp::begins_removal(left, after, task_id)
        };
    crate::invariants::law_all_closed(before, closed, ids, false);
    let one = before.session.terminals@[terminal];
    if one.task_id == Some(task_id) {
        before.session.terminals@.lemma_filter_contains(keep, terminal);
        let k = choose|k: int| 0 <= k < owned.len() && owned[k] == one;
        assert(ids[k] == one.id);
    }
}

/// A task that could not be removed stays, and the user is told.
pub proof fn law_task_removal_failed(
    before: BlackholesApp,
    after: BlackholesApp,
    task_id: Id,
    result: Result<(), String>,
    stored: Result<(), String>,
)
    requires
        BlackholesApp::finishes_removal(before, after, task_id, result, stored),
    ensures
        after.busy is None,
        result is Err || stored is Err ==> after.tasks == before.tasks && after.session
            == before.session && (after.status matches Some(status) && status.error),
        result is Ok && stored is Ok ==> task_at(after.tasks@, task_id) is None && (
        after.status matches Some(status) && !status.error),
{
    if result is Ok && stored is Ok {
        law_removed_task(before.idle(), after, task_id);
        law_other_tasks_stay(before.idle(), after, task_id);
        lemma_removal_keeps_rest(before.idle(), after, task_id);
    }
}

/// Removing a task starts no operation.
proof fn lemma_removal_keeps_rest(before: BlackholesApp, after: BlackholesApp, task_id: Id)
    requires
        BlackholesApp::removes_task(before, after, task_id),
    ensures
        after.busy == before.busy,
{
}

} // verus!
