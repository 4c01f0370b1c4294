//! Taking in records that changed outside, and going where links and
//! notifications lead.
use vstd::prelude::*;
use vstd::string::*;

use crate::app::{AppSession, AppToast, AppToastTarget, BlackholesApp, LegacyNote};
use crate::effects::{Effect, GitScope, NavigationTarget, SurfaceTarget};
use crate::ids::{contains_id, insert_unique, with_id, Id};
use crate::model::{
    find_task, find_terminal, find_workspace, task_at, terminal_at, workspace_at, AgentKind,
    ProjectTask, SessionState, Workspace,
};
use crate::ranking::{is_order, key_values, order_by_key};
use crate::search::retain_where;
use crate::toasts::task_of;

verus! {

// ---------------------------------------------------------------------------
// New tasks
// ---------------------------------------------------------------------------
impl BlackholesApp {
    /// `after` is `before` with a task marked as new, where it is, and looked at.
    pub open spec fn marks_new(before: Self, after: Self, task_id: Id) -> bool {
        let unseen = before.session.unseen_task_ids@;
        &&& after.session.unseen_task_ids@ == with_id(unseen, task_id)
        &&& after.effects@ == before.effects@ + (if unseen.contains(task_id) {
            seq![]
        } else {
            seq![before.persists()]
        }) + seq![Effect::InspectRepositories { scope: GitScope::Task { task_id } }]
        &&& after == (BlackholesApp {
            session: AppSession {
                unseen_task_ids: after.session.unseen_task_ids,
                ..before.session
            },
            effects: after.effects,
            ..before
        })
    }

    fn mark_new(&mut self, task_id: Id) -> (is_new: bool)
        ensures
            Self::marks_new(*old(self), *final(self), task_id),
            is_new == !old(self).session.unseen_task_ids@.contains(task_id),
    {
        let ghost before = *self;
        let is_new: bool = !contains_id(&self.session.unseen_task_ids, task_id);
        if is_new {
            insert_unique(&mut self.session.unseen_task_ids, task_id);
            self.persist_session();
        }
        self.request_task_git_summaries(task_id);
        assert(self.effects@ =~= before.effects@ + (if is_new {
            seq![before.persists()]
        } else {
            seq![]
        }) + seq![Effect::InspectRepositories { scope: GitScope::Task { task_id } }]);
        is_new
    }

    /// `after` is `before` with the user taken to a task that they wait for, and
    /// told of it where it is new.
    pub open spec fn leads_to_task(before: Self, after: Self, task: ProjectTask, task_id: Id, is_new: bool) -> bool {
        exists|chosen: BlackholesApp, scrolled: BlackholesApp| #[trigger]
            Self::selects_surface(
                before,
                chosen,
                task.workspace_id,
                Some(task_id),
                None,
                false,
            ) && #[trigger] Self::requests(
                chosen,
                scrolled,
                seq![Effect::ScrollToTask { task_id }],
            ) && if is_new {
                Self::shows_created(scrolled, after, task)
            } else {
                after == scrolled
            }
    }

    /// `after` is `before` with a task registered that just appeared. Only where
    /// the user waits for it does it take over the view.
    pub open spec fn reveals(before: Self, after: Self, task_id: Id, focus: bool) -> bool {
        match task_at(before.tasks@, task_id) {
            None => after == before,
            Some(at) => exists|marked: BlackholesApp| #[trigger]
                Self::marks_new(before, marked, task_id) && if focus {
                    Self::leads_to_task(
                        marked,
                        after,
                        before.tasks@[at],
                        task_id,
                        !before.session.unseen_task_ids@.contains(task_id),
                    )
                } else {
                    Self::requests(marked, after, seq![Effect::Redraw])
                },
        }
    }

    /// Registers a task that just appeared.
    pub fn reveal_new_task(&mut self, task_id: Id, focus: bool)
        ensures
            Self::reveals(*old(self), *final(self), task_id, focus),
    {
        let at: usize = match find_task(&self.tasks, task_id) {
            Some(at) => at,
            None => {
                return ;
            },
        };
        let ghost before = *self;
        let is_new: bool = self.mark_new(task_id);
        let ghost marked = *self;
        assert(Self::marks_new(before, marked, task_id));
        if !focus {
            self.notify();
            return ;
        }
        let workspace_id: Id = self.tasks[at].workspace_id;
        self.select_target(workspace_id, Some(task_id), None);
        let ghost chosen = *self;
        assert(Self::selects_surface(marked, chosen, workspace_id, Some(task_id), None, false));
        self.emit(Effect::ScrollToTask { task_id });
        let ghost scrolled = *self;
        assert(Self::requests(chosen, scrolled, seq![Effect::ScrollToTask { task_id }]));
        assert(scrolled.tasks == before.tasks);
        if is_new {
            self.show_task_created_toast(at);
        }
        assert(Self::leads_to_task(marked, *self, before.tasks@[at as int], task_id, is_new));
    }

    /// `after` is `before` with the tasks registered, one after the other, none
    /// of which takes over the view.
    pub open spec fn reveals_all(before: Self, after: Self, tasks: Seq<usize>) -> bool
        decreases tasks.len(),
    {
        if tasks.len() == 0 {
            after == before
        } else {
            exists|middle: BlackholesApp|
                Self::reveals_all(before, middle, tasks.drop_last()) && #[trigger] Self::reveals(
                    middle,
                    after,
                    before.tasks@[tasks.last() as int].id,
                    false,
                )
        }
    }
}

/// A task that appears on its own leaves what is selected and shown as it is.
pub proof fn law_new_task_keeps_view(before: BlackholesApp, after: BlackholesApp, task_id: Id)
    requires
        BlackholesApp::reveals(before, after, task_id, false),
    ensures
        after.session.selected_workspace_id == before.session.selected_workspace_id,
        after.session.selected_task_id == before.session.selected_task_id,
        after.session.selected_repository_id == before.session.selected_repository_id,
        after.surface == before.surface,
        after.app_toasts == before.app_toasts,
        after.tasks == before.tasks,
{
}

// ---------------------------------------------------------------------------
// Reloading
// ---------------------------------------------------------------------------
/// The task is among those loaded.
pub open spec fn loaded(tasks: Seq<ProjectTask>) -> spec_fn(Id) -> bool {
    |task_id: Id| task_at(tasks, task_id) is Some
}

pub open spec fn note_loaded(tasks: Seq<ProjectTask>) -> spec_fn(LegacyNote) -> bool {
    |note: LegacyNote| task_at(tasks, note.task_id) is Some
}

pub open spec fn toast_loaded(tasks: Seq<ProjectTask>) -> spec_fn(AppToast) -> bool {
    |toast: AppToast|
        match task_of(toast.target) {
            Some(task_id) => task_at(tasks, task_id) is Some,
            None => true,
        }
}

/// Tasks that were not known rank by the time of their creation.
pub open spec fn new_task_keys(known: Seq<ProjectTask>, tasks: Seq<ProjectTask>) -> Seq<Option<int>> {
    tasks.map_values(
        |task: ProjectTask|
            if task_at(known, task.id) is Some {
                None::<int>
            } else {
                Some(task.created_at.rank())
            },
    )
}

fn find_new_tasks(known: &Vec<ProjectTask>, tasks: &Vec<ProjectTask>) -> (result: Vec<usize>)
    ensures
        is_order(new_task_keys(known@, tasks@), result@),
{
    let ghost wanted = new_task_keys(known@, tasks@);
    let mut keys: Vec<Option<i128>> = Vec::new();
    let mut index: usize = 0;
    while index < tasks.len()
        invariant
            wanted == new_task_keys(known@, tasks@),
            index <= tasks@.len(),
            keys@.len() == index,
            forall|i: int| 0 <= i < index ==> key_values(keys@)[i] == #[trigger] wanted[i],
        decreases tasks@.len() - index,
    {
        let ghost before = keys@;
        let key: Option<i128> = match find_task(known, tasks[index].id) {
            Some(_) => None,
            None => Some(tasks[index].created_at.ranked()),
        };
        keys.push(key);
        proof {
            assert forall|i: int| 0 <= i <= index implies key_values(keys@)[i]
                == #[trigger] wanted[i] by {
                if i < index {
                    assert(key_values(before)[i] == wanted[i]);
                }
            }
        }
        index += 1;
    }
    assert(key_values(keys@) =~= wanted);
    order_by_key(&keys)
}

impl BlackholesApp {
    /// `after` is `before` with other tasks; what was kept for tasks that are
    /// gone goes too.
    pub open spec fn loads_tasks(before: Self, after: Self, tasks: Vec<ProjectTask>) -> bool {
        &&& after.task_details_dirty@ == before.task_details_dirty@.filter(loaded(tasks@))
        &&& after.task_legacy_notes@ == before.task_legacy_notes@.filter(note_loaded(tasks@))
        &&& after == (BlackholesApp {
            tasks,
            task_details_dirty: after.task_details_dirty,
            task_legacy_notes: after.task_legacy_notes,
            ..before
        })
    }

    /// The details of a task that is gone are shown.
    pub open spec fn shows_lost_task(&self) -> bool {
        self.surface.show_task_details && (self.session.selected_task_id matches Some(task_id)
            && task_at(self.tasks@, task_id) is None)
    }

    /// `after` is `before` off the details of a task that is gone.
    pub open spec fn leaves_lost_task(before: Self, after: Self) -> bool {
        if before.shows_lost_task() {
            Self::goes_home(before, after)
        } else {
            after == before
        }
    }

    /// `after` is `before` without the marks and notifications of tasks that are gone.
    pub open spec fn forgets_lost_tasks(before: Self, after: Self) -> bool {
        let unseen = before.session.unseen_task_ids@.filter(loaded(before.tasks@));
        &&& after.session.unseen_task_ids@ == unseen
        &&& after.app_toasts@ == before.app_toasts@.filter(toast_loaded(before.tasks@))
        &&& after.effects@ == before.effects@ + if unseen.len()
            != before.session.unseen_task_ids@.len() {
            seq![before.persists()]
        } else {
            seq![]
        }
        &&& after == (BlackholesApp {
            session: AppSession {
                unseen_task_ids: after.session.unseen_task_ids,
                ..before.session
            },
            app_toasts: after.app_toasts,
            effects: after.effects,
            ..before
        })
    }

    /// `after` is `before` with other tasks taken in, the new ones registered in
    /// the order of their creation.
    pub open spec fn takes_tasks(before: Self, after: Self, tasks: Vec<ProjectTask>) -> bool {
        exists|
            loaded: BlackholesApp,
            left: BlackholesApp,
            kept: BlackholesApp,
            order: Seq<usize>,
        |
            {
                &&& #[trigger] Self::loads_tasks(before, loaded, tasks)
                &&& #[trigger] Self::leaves_lost_task(loaded, left)
                &&& #[trigger] Self::forgets_lost_tasks(left, kept)
                &&& is_order(new_task_keys(before.tasks@, tasks@), order)
                &&& #[trigger] Self::reveals_all(kept, after, order)
            }
    }

    /// `after` is `before` with records read again; what could not be read stays.
    pub open spec fn reloads(
        before: Self,
        after: Self,
        workspaces: Option<Vec<Workspace>>,
        tasks: Option<Vec<ProjectTask>>,
    ) -> bool {
        exists|renewed: BlackholesApp, taken: BlackholesApp| #[trigger]
            Self::renews(before, renewed, workspaces) && #[trigger] Self::takes_tasks_if(
                renewed,
                taken,
                tasks,
            ) && Self::requests(taken, after, taken.inspects_expanded())
    }

    /// `after` is `before` with other projects, where they could be read.
    pub open spec fn renews(before: Self, after: Self, workspaces: Option<Vec<Workspace>>) -> bool {
        after == match workspaces {
            Some(workspaces) => BlackholesApp { workspaces, ..before },
            None => before,
        }
    }

    /// `after` is `before` with other tasks, where they could be read.
    pub open spec fn takes_tasks_if(before: Self, after: Self, tasks: Option<Vec<ProjectTask>>) -> bool {
        match tasks {
            Some(tasks) => Self::takes_tasks(before, after, tasks),
            None => after == before,
        }
    }

    fn load_tasks(&mut self, tasks: Vec<ProjectTask>)
        ensures
            Self::loads_tasks(*old(self), *final(self), tasks),
    {
        self.tasks = tasks;
        let known = &self.tasks;
        let test = |task_id: &Id| -> (kept: bool)
            ensures
                kept == (task_at(known@, *task_id) is Some),
        { find_task(known, *task_id).is_some() };
        retain_where(&mut self.task_details_dirty, Ghost(loaded(known@)), test);
        let test = |note: &LegacyNote| -> (kept: bool)
            ensures
                kept == (task_at(known@, note.task_id) is Some),
        { find_task(known, note.task_id).is_some() };
        retain_where(&mut self.task_legacy_notes, Ghost(note_loaded(known@)), test);
    }

    fn forget_lost_tasks(&mut self)
        ensures
            Self::forgets_lost_tasks(*old(self), *final(self)),
    {
        let ghost before = *self;
        let known = &self.tasks;
        let unseen: usize = self.session.unseen_task_ids.len();
        let test = |task_id: &Id| -> (kept: bool)
            ensures
                kept == (task_at(known@, *task_id) is Some),
        { find_task(known, *task_id).is_some() };
        retain_where(&mut self.session.unseen_task_ids, Ghost(loaded(known@)), test);
        let test = |toast: &AppToast| -> (kept: bool)
            ensures
                kept == match task_of(toast.target) {
                        Some(task_id) => task_at(known@, task_id) is Some,
                        None => true,
                    },
        {
                    match toast.target.task_id() {
                        Some(task_id) => find_task(known, task_id).is_some(),
                        None => true,
                    }
                };
        retain_where(&mut self.app_toasts, Ghost(toast_loaded(known@)), test);
        if self.session.unseen_task_ids.len() != unseen {
            self.persist_session();
        } else {
            assert(self.effects@ =~= before.effects@ + Seq::<Effect>::empty());
        }
    }

    fn reveal_tasks(&mut self, order: &Vec<usize>)
        requires
            forall|k: int| 0 <= k < order@.len() ==> (#[trigger] order@[k]) < old(self).tasks@.len(),
        ensures
            Self::reveals_all(*old(self), *final(self), order@),
    {
        let ghost before = *self;
        let mut index: usize = 0;
        while index < order.len()
            invariant
                index <= order@.len(),
                self.tasks == before.tasks,
                forall|k: int| 0 <= k < order@.len() ==> (#[trigger] order@[k]) < before.tasks@.len(),
                Self::reveals_all(before, *self, order@.take(index as int)),
            decreases order@.len() - index,
        {
            let ghost middle = *self;
            let task_id: Id = self.tasks[order[index]].id;
            self.reveal_new_task(task_id, false);
            proof {
                let done = order@.take(index + 1);
                assert(done.drop_last() =~= order@.take(index as int));
                assert(done.last() == order@[index as int]);
                assert(Self::reveals(middle, *self, task_id, false));
            }
            index += 1;
        }
        assert(order@.take(index as int) =~= order@);
    }

    fn take_tasks(&mut self, tasks: Vec<ProjectTask>)
        ensures
            Self::takes_tasks(*old(self), *final(self), tasks),
    {
        let ghost before = *self;
        let order = find_new_tasks(&self.tasks, &tasks);
        self.load_tasks(tasks);
        let ghost loaded = *self;
        assert(Self::loads_tasks(before, loaded, tasks));
        let lost: bool = self.surface.show_task_details && match self.session.selected_task_id {
            Some(task_id) => find_task(&self.tasks, task_id).is_none(),
            None => false,
        };
        if lost {
            self.show_home();
        }
        let ghost left = *self;
        assert(Self::leaves_lost_task(loaded, left));
        self.forget_lost_tasks();
        let ghost kept = *self;
        assert(Self::forgets_lost_tasks(left, kept));
        self.reveal_tasks(&order);
        assert(Self::reveals_all(kept, *self, order@));
    }

    /// Records were read again. What could not be read stays as it is.
    pub fn reload_external_data(
        &mut self,
        workspaces: Option<Vec<Workspace>>,
        tasks: Option<Vec<ProjectTask>>,
    )
        ensures
            Self::reloads(*old(self), *final(self), workspaces, tasks),
    {
        let ghost before = *self;
        if let Some(workspaces) = workspaces {
            self.workspaces = workspaces;
        }
        let ghost renewed = *self;
        assert(Self::renews(before, renewed, workspaces));
        if let Some(tasks) = tasks {
            self.take_tasks(tasks);
        }
        let ghost taken = *self;
        assert(Self::takes_tasks_if(renewed, taken, tasks));
        self.refresh_expanded_repository_git_summaries();
    }
}

// ---------------------------------------------------------------------------
// Going where something leads
// ---------------------------------------------------------------------------
impl BlackholesApp {
    /// `after` is `before` with the overview of a project shown and scrolled to.
    pub open spec fn visits_project(before: Self, after: Self, workspace_id: Id) -> bool {
        exists|shown: BlackholesApp| #[trigger]
            Self::shows_project(before, shown, workspace_id) && Self::requests(
                shown,
                after,
                seq![Effect::ScrollToProject { workspace_id }],
            )
    }

    /// `after` is `before` with the details of a task shown and revealed in the
    /// navigation.
    pub open spec fn visits_task(before: Self, after: Self, workspace_id: Id, task_id: Id) -> bool {
        exists|shown: BlackholesApp| #[trigger]
            Self::shows_task(before, shown, workspace_id, task_id) && Self::requests(
                shown,
                after,
                seq![
                    Effect::PublishNavigation,
                    Effect::RevealTarget { workspace_id, task_id },
                    Effect::ScrollToTask { task_id },
                ],
            )
    }

    /// `after` is `before` where a link leads. A target that is not known is
    /// looked for in the records once.
    pub open spec fn follows_link(before: Self, after: Self, target: NavigationTarget, reloaded: bool) -> bool {
        let known = match target {
            NavigationTarget::Project { workspace_id } => workspace_at(
                before.workspaces@,
                workspace_id,
            ) is Some,
            NavigationTarget::Task { task_id } => task_at(before.tasks@, task_id) is Some,
        };
        if known {
            match target {
                NavigationTarget::Project { workspace_id } => Self::visits_project(
                    before,
                    after,
                    workspace_id,
                ),
                NavigationTarget::Task { task_id } => Self::visits_task(
                    before,
                    after,
                    before.tasks@[task_at(before.tasks@, task_id)->0].workspace_id,
                    task_id,
                ),
            }
        } else if reloaded {
            after == before
        } else {
            Self::requests(before, after, seq![Effect::ReloadAndOpen { link: target }])
        }
    }

    /// Shows the overview of a project that a link leads to.
    pub fn open_project_from_navigation(&mut self, workspace_id: Id, reloaded: bool)
        ensures
            Self::follows_link(
                *old(self),
                *final(self),
                NavigationTarget::Project { workspace_id },
                reloaded,
            ),
    {
        let ghost before = *self;
        if find_workspace(&self.workspaces, workspace_id).is_none() {
            if !reloaded {
                let target = NavigationTarget::Project { workspace_id };
                self.emit(Effect::ReloadAndOpen { link: target });
            }
            return ;
        }
        self.show_project_overview(workspace_id);
        assert(Self::shows_project(before, *self, workspace_id));
        self.emit(Effect::ScrollToProject { workspace_id });
    }

    /// Shows the details of a task that a link leads to.
    pub fn open_task_from_navigation(&mut self, task_id: Id, reloaded: bool)
        ensures
            Self::follows_link(
                *old(self),
                *final(self),
                NavigationTarget::Task { task_id },
                reloaded,
            ),
    {
        let ghost before = *self;
        let at: usize = match find_task(&self.tasks, task_id) {
            Some(at) => at,
            None => {
                if !reloaded {
                    let target = NavigationTarget::Task { task_id };
                    self.emit(Effect::ReloadAndOpen { link: target });
                }
                return ;
            },
        };
        let workspace_id: Id = self.tasks[at].workspace_id;
        self.show_task_details_for(workspace_id, task_id);
        let ghost shown = *self;
        assert(Self::shows_task(before, shown, workspace_id, task_id));
        self.emit(Effect::PublishNavigation);
        self.emit(Effect::RevealTarget { workspace_id, task_id });
        self.emit(Effect::ScrollToTask { task_id });
        assert(self.effects@ =~= shown.effects@ + seq![
            Effect::PublishNavigation,
            Effect::RevealTarget { workspace_id, task_id },
            Effect::ScrollToTask { task_id },
        ]);
    }

    /// `after` is `before` with the task of a notification shown; the
    /// notification of a task that is gone goes.
    pub open spec fn opens_toast_task(before: Self, after: Self, task_id: Id) -> bool {
        match task_at(before.tasks@, task_id) {
            None => Self::dismisses_toast(before, after, AppToastTarget::Task { task_id }),
            Some(at) => exists|shown: BlackholesApp| #[trigger]
                Self::shows_task(before, shown, before.tasks@[at].workspace_id, task_id)
                    && Self::requests(shown, after, seq![Effect::ScrollToTask { task_id }]),
        }
    }

    /// Shows the task of a notification.
    pub fn open_task_from_toast(&mut self, task_id: Id)
        ensures
            Self::opens_toast_task(*old(self), *final(self), task_id),
    {
        let ghost before = *self;
        match find_task(&self.tasks, task_id) {
            None => self.dismiss_app_toast(AppToastTarget::Task { task_id }),
            Some(at) => {
                let workspace_id: Id = self.tasks[at].workspace_id;
                self.show_task_details_for(workspace_id, task_id);
                assert(Self::shows_task(before, *self, workspace_id, task_id));
                self.emit(Effect::ScrollToTask { task_id });
            },
        }
    }

    /// `after` is `before` where a notification leads. One about a terminal that
    /// ended does not start it again: it leads to the task or project.
    pub open spec fn opens_toast(before: Self, after: Self, target: AppToastTarget) -> bool {
        match target {
            AppToastTarget::Task { task_id } => Self::opens_toast_task(before, after, task_id),
            AppToastTarget::Terminal { terminal_id, .. } => match terminal_at(
                before.session.terminals@,
                terminal_id,
            ) {
                None => after == before,
                Some(at) => {
                    let terminal = before.session.terminals@[at];
                    if terminal.state != SessionState::Exited {
                        Self::focuses_terminal(before, after, terminal_id)
                    } else {
                        exists|dismissed: BlackholesApp| #[trigger]
                            Self::dismisses_toast(before, dismissed, target)
                                && Self::follows_link(
                                dismissed,
                                after,
                                match terminal.task_id {
                                    Some(task_id) => NavigationTarget::Task { task_id },
                                    None => NavigationTarget::Project {
                                        workspace_id: terminal.workspace_id,
                                    },
                                },
                                false,
                            )
                    }
                },
            },
        }
    }

    /// A notification was clicked.
    pub fn open_toast_target(&mut self, target: AppToastTarget)
        ensures
            Self::opens_toast(*old(self), *final(self), target),
    {
        let ghost before = *self;
        match target {
            AppToastTarget::Task { task_id } => self.open_task_from_toast(task_id),
            AppToastTarget::Terminal { terminal_id, .. } => {
                let at: usize = match find_terminal(&self.session.terminals, terminal_id) {
                    Some(at) => at,
                    None => {
                        return ;
                    },
                };
                if self.session.terminals[at].state != SessionState::Exited {
                    self.focus_terminal(terminal_id);
                    return ;
                }
                let task_id: Option<Id> = self.session.terminals[at].task_id;
                let workspace_id: Id = self.session.terminals[at].workspace_id;
                self.dismiss_app_toast(target);
                assert(Self::dismisses_toast(before, *self, target));
                match task_id {
                    Some(task_id) => self.open_task_from_navigation(task_id, false),
                    None => self.open_project_from_navigation(workspace_id, false),
                }
            },
        }
    }
}

/// A notification about a terminal that ended does not start it again.
pub proof fn law_ended_terminal_not_restarted(
    before: BlackholesApp,
    after: BlackholesApp,
    terminal_id: Id,
    agent: AgentKind,
)
    requires
        BlackholesApp::opens_toast(
            before,
            after,
            AppToastTarget::Terminal { terminal_id, agent },
        ),
        terminal_at(before.session.terminals@, terminal_id) matches Some(at)
            && before.session.terminals@[at].state == SessionState::Exited,
    ensures
        after.session.terminals == before.session.terminals,
        after.running == before.running,
        forall|i: int|
            before.effects@.len() <= i < after.effects@.len() ==> (
            #[trigger] after.effects@[i]) !is StartTerminal && after.effects@[i] !is SpawnTerminal,
{
}

/// A task that the user waits for is selected and shown, marked as new, and told of
/// where it was not marked before.
pub proof fn law_task_led_to(before: BlackholesApp, after: BlackholesApp, task_id: Id, at: int)
    requires
        BlackholesApp::reveals(before, after, task_id, true),
        0 <= at < before.tasks@.len(),
        before.tasks@[at].id == task_id,
        forall|i: int| 0 <= i < at ==> (#[trigger] before.tasks@[i]).id != task_id,
    ensures
        after.session.selected_task_id == Some(task_id),
        after.session.selected_workspace_id == Some(before.tasks@[at].workspace_id),
        after.session.selected_repository_id is None,
        after.surface_shown() == Some(SurfaceTarget::TaskDetails { task_id }),
        after.session.unseen_task_ids@.contains(task_id),
        after.tasks == before.tasks,
        after.workspaces == before.workspaces,
        after.busy == before.busy,
        !before.session.unseen_task_ids@.contains(task_id) ==> exists|i: int|
            0 <= i < after.app_toasts@.len() && (#[trigger] after.app_toasts@[i]).target == (
            AppToastTarget::Task { task_id }),
{
    let task = before.tasks@[at];
    crate::search::lemma_first_where(before.tasks@, crate::model::task_is(task_id), 0);
    assert(crate::model::task_is(task_id)(task));
    crate::ids::law_insert_unique(before.session.unseen_task_ids@, task_id);
    let is_new = !before.session.unseen_task_ids@.contains(task_id);
    let marked = choose|marked: BlackholesApp| #[trigger]
        BlackholesApp::marks_new(before, marked, task_id) && BlackholesApp::leads_to_task(
            marked,
            after,
            task,
            task_id,
            is_new,
        );
    let (chosen, scrolled) = choose|chosen: BlackholesApp, scrolled: BlackholesApp| #[trigger]
        BlackholesApp::selects_surface(marked, chosen, task.workspace_id, Some(task_id), None, false)
            && #[trigger] BlackholesApp::requests(
            chosen,
            scrolled,
            seq![Effect::ScrollToTask { task_id }],
        ) && if is_new {
            BlackholesApp::shows_created(scrolled, after, task)
        } else {
            after == scrolled
        };
    crate::selection::law_target_selected(
        marked,
        chosen,
        task.workspace_id,
        Some(task_id),
        None,
        false,
    );
    if is_new {
        crate::toasts::law_created_task_told(scrolled, after, task);
    }
}

/// A link leads to the overview of its project or the details of its task; a target
/// that is not known is looked for in the records once.
pub proof fn law_link_followed(
    before: BlackholesApp,
    after: BlackholesApp,
    target: NavigationTarget,
    reloaded: bool,
    at: int,
)
    requires
        BlackholesApp::follows_link(before, after, target, reloaded),
        match target {
            NavigationTarget::Project { workspace_id } => 0 <= at < before.workspaces@.len()
                && before.workspaces@[at].id == workspace_id,
            NavigationTarget::Task { task_id } => 0 <= at < before.tasks@.len()
                && before.tasks@[at].id == task_id && forall|i: int|
                0 <= i < at ==> (#[trigger] before.tasks@[i]).id != task_id,
        },
    ensures
        match target {
            NavigationTarget::Project { workspace_id } => after.surface_shown() == Some(
                SurfaceTarget::ProjectOverview { workspace_id },
            ) && after.session.selected_workspace_id == Some(workspace_id) && after.effects@.last()
                == (Effect::ScrollToProject { workspace_id }),
            NavigationTarget::Task { task_id } => after.surface_shown() == Some(
                SurfaceTarget::TaskDetails { task_id },
            ) && after.session.selected_task_id == Some(task_id)
                && after.session.selected_workspace_id == Some(before.tasks@[at].workspace_id)
                && after.effects@.last() == (Effect::ScrollToTask { task_id }),
        },
{
    match target {
        NavigationTarget::Project { workspace_id } => {
            crate::search::lemma_first_where(
                before.workspaces@,
                crate::model::workspace_is(workspace_id),
                0,
            );
            assert(crate::model::workspace_is(workspace_id)(before.workspaces@[at]));
            let shown = choose|shown: BlackholesApp| #[trigger]
                BlackholesApp::shows_project(before, shown, workspace_id)
                    && BlackholesApp::requests(
                    shown,
                    after,
                    seq![Effect::ScrollToProject { workspace_id }],
                );
            crate::selection::law_project_shown(before, shown, workspace_id, at);
        },
        NavigationTarget::Task { task_id } => {
            crate::search::lemma_first_where(before.tasks@, crate::model::task_is(task_id), 0);
            assert(crate::model::task_is(task_id)(before.tasks@[at]));
            let workspace_id = before.tasks@[at].workspace_id;
            let shown = choose|shown: BlackholesApp| #[trigger]
                BlackholesApp::shows_task(before, shown, workspace_id, task_id)
                    && BlackholesApp::requests(
                    shown,
                    after,
                    seq![
                        Effect::PublishNavigation,
                        Effect::RevealTarget { workspace_id, task_id },
                        Effect::ScrollToTask { task_id },
                    ],
                );
            crate::selection::law_task_shown(before, shown, workspace_id, task_id, at);
        },
    }
}

/// The notification of a task leads to its details.
pub proof fn law_toast_followed(before: BlackholesApp, after: BlackholesApp, task_id: Id, at: int)
    requires
        BlackholesApp::opens_toast(before, after, AppToastTarget::Task { task_id }),
        0 <= at < before.tasks@.len(),
        before.tasks@[at].id == task_id,
        forall|i: int| 0 <= i < at ==> (#[trigger] before.tasks@[i]).id != task_id,
    ensures
        after.surface_shown() == Some(SurfaceTarget::TaskDetails { task_id }),
        after.session.selected_task_id == Some(task_id),
        !after.session.unseen_task_ids@.contains(task_id),
        after.effects@.last() == (Effect::ScrollToTask { task_id }),
{
    crate::search::lemma_first_where(before.tasks@, crate::model::task_is(task_id), 0);
    assert(crate::model::task_is(task_id)(before.tasks@[at]));
    let workspace_id = before.tasks@[at].workspace_id;
    let shown = choose|shown: BlackholesApp| #[trigger]
        BlackholesApp::shows_task(before, shown, workspace_id, task_id) && BlackholesApp::requests(
            shown,
            after,
            seq![Effect::ScrollToTask { task_id }],
        );
    crate::selection::law_task_shown(before, shown, workspace_id, task_id, at);
}

/// Registering tasks that appear on their own changes neither the tasks nor what is
/// selected and shown, keeps every mark, and marks each of them.
proof fn lemma_all_revealed(before: BlackholesApp, after: BlackholesApp, tasks: Seq<usize>)
    requires
        BlackholesApp::reveals_all(before, after, tasks),
        forall|k: int| 0 <= k < tasks.len() ==> (#[trigger] tasks[k]) < before.tasks@.len(),
    ensures
        after.tasks == before.tasks,
        after.workspaces == before.workspaces,
        after.surface == before.surface,
        after.session.selected_task_id == before.session.selected_task_id,
        after.session.selected_workspace_id == before.session.selected_workspace_id,
        after.app_toasts == before.app_toasts,
        after.file_explorer == before.file_explorer,
        after.active_file == before.active_file,
        after.active_diff == before.active_diff,
        after.task_details_dirty == before.task_details_dirty,
        after.task_legacy_notes == before.task_legacy_notes,
        forall|k: int|
            0 <= k < tasks.len() ==> after.session.unseen_task_ids@.contains(
                before.tasks@[#[trigger] tasks[k] as int].id,
            ),
        forall|id: Id|
            before.session.unseen_task_ids@.contains(id)
                ==> #[trigger] after.session.unseen_task_ids@.contains(id),
    decreases tasks.len(),
{
    if tasks.len() > 0 {
        let fewer = tasks.drop_last();
        let at = tasks.last() as int;
        assert(tasks[tasks.len() - 1] == tasks.last());
        let id = before.tasks@[at].id;
        let middle = choose|middle: BlackholesApp|
            BlackholesApp::reveals_all(before, middle, fewer) && #[trigger] BlackholesApp::reveals(
                middle,
                after,
                id,
                false,
            );
        assert forall|k: int| 0 <= k < fewer.len() implies (#[trigger] fewer[k])
            < before.tasks@.len() by {
            assert(fewer[k] == tasks[k]);
        }
        lemma_all_revealed(before, middle, fewer);
        crate::search::lemma_first_where(middle.tasks@, crate::model::task_is(id), 0);
        assert(crate::model::task_is(id)(middle.tasks@[at]));
        crate::ids::law_insert_unique(middle.session.unseen_task_ids@, id);
        let marked = choose|marked: BlackholesApp| #[trigger]
            BlackholesApp::marks_new(middle, marked, id) && BlackholesApp::requests(
                marked,
                after,
                seq![Effect::Redraw],
            );
        let unseen = middle.session.unseen_task_ids@;
        assert(after.session.unseen_task_ids@ == with_id(unseen, id));
        assert forall|other: Id| unseen.contains(other) implies #[trigger]
            after.session.unseen_task_ids@.contains(other) by {
            let k = choose|k: int| 0 <= k < unseen.len() && unseen[k] == other;
            assert(with_id(unseen, id)[k] == other);
        }
        assert forall|k: int| 0 <= k < tasks.len() implies after.session.unseen_task_ids@.contains(
            before.tasks@[#[trigger] tasks[k] as int].id,
        ) by {
            if k < fewer.len() {
                assert(fewer[k] == tasks[k]);
            }
        }
    }
}

/// Once the tasks were read again they are the ones that were read. A task that is new
/// is marked as one, and what was kept for a task that is gone goes: its mark, its
/// notifications, its note and its edits. The page stays, unless it showed such a task.
pub proof fn law_tasks_reloaded(
    before: BlackholesApp,
    after: BlackholesApp,
    tasks: Vec<ProjectTask>,
    at: int,
)
    requires
        BlackholesApp::takes_tasks(before, after, tasks),
        0 <= at < tasks@.len() <= usize::MAX,
    ensures
        after.tasks == tasks,
        (forall|i: int|
            0 <= i < before.tasks@.len() ==> (#[trigger] before.tasks@[i]).id != tasks@[at].id)
            ==> after.session.unseen_task_ids@.contains(tasks@[at].id),
        forall|i: int|
            0 <= i < after.app_toasts@.len() ==> ((#[trigger] after.app_toasts@[i]).target matches
            AppToastTarget::Task { task_id } ==> task_at(tasks@, task_id) is Some),
        forall|i: int|
            0 <= i < after.task_legacy_notes@.len() ==> task_at(
                tasks@,
                (#[trigger] after.task_legacy_notes@[i]).task_id,
            ) is Some,
        forall|i: int|
            0 <= i < after.task_details_dirty@.len() ==> task_at(
                tasks@,
                #[trigger] after.task_details_dirty@[i],
            ) is Some,
        after.session.selected_task_id == before.session.selected_task_id,
        !before.surface.show_task_details || (before.session.selected_task_id matches Some(shown)
            && task_at(tasks@, shown) is Some) ==> after.surface == before.surface,
        before.surface.show_task_details && (before.session.selected_task_id matches Some(shown)
            && task_at(tasks@, shown) is None) ==> after.surface_shown() == Some(SurfaceTarget::Home),
{
    let (loaded_app, left, kept, order) = choose|
        loaded_app: BlackholesApp,
        left: BlackholesApp,
        kept: BlackholesApp,
        order: Seq<usize>,
    |
        {
            &&& #[trigger] BlackholesApp::loads_tasks(before, loaded_app, tasks)
            &&& #[trigger] BlackholesApp::leaves_lost_task(loaded_app, left)
            &&& #[trigger] BlackholesApp::forgets_lost_tasks(left, kept)
            &&& is_order(new_task_keys(before.tasks@, tasks@), order)
            &&& #[trigger] BlackholesApp::reveals_all(kept, after, order)
        };
    let keys = new_task_keys(before.tasks@, tasks@);
    assert(kept.tasks == tasks);
    if loaded_app.shows_lost_task() {
        crate::selection::law_home_shown(loaded_app, left);
    }
    assert forall|k: int| 0 <= k < order.len() implies (#[trigger] order[k]) < kept.tasks@.len() by {
        assert(order[k] < keys.len());
    }
    lemma_all_revealed(kept, after, order);
    crate::search::lemma_first_where(before.tasks@, crate::model::task_is(tasks@[at].id), 0);
    if forall|i: int|
        0 <= i < before.tasks@.len() ==> (#[trigger] before.tasks@[i]).id != tasks@[at].id {
        assert(task_at(before.tasks@, tasks@[at].id) is None);
        assert(keys[at] is Some);
        assert(order.contains(at as usize));
        let k = choose|k: int| 0 <= k < order.len() && order[k] == at as usize;
        assert(kept.tasks@[order[k] as int].id == tasks@[at].id);
    }
    assert forall|i: int| 0 <= i < after.app_toasts@.len() implies ((
    #[trigger] after.app_toasts@[i]).target matches AppToastTarget::Task { task_id } ==> task_at(
        tasks@,
        task_id,
    ) is Some) by {
        left.app_toasts@.lemma_filter_pred(toast_loaded(tasks@), i);
    }
    assert forall|i: int| 0 <= i < after.task_legacy_notes@.len() implies task_at(
        tasks@,
        (#[trigger] after.task_legacy_notes@[i]).task_id,
    ) is Some by {
        before.task_legacy_notes@.lemma_filter_pred(note_loaded(tasks@), i);
    }
    assert forall|i: int| 0 <= i < after.task_details_dirty@.len() implies task_at(
        tasks@,
        #[trigger] after.task_details_dirty@[i],
    ) is Some by {
        before.task_details_dirty@.lemma_filter_pred(loaded(tasks@), i);
    }
}

/// Records that could be read again replace the ones there were; the others stay.
pub proof fn law_records_reloaded(
    before: BlackholesApp,
    after: BlackholesApp,
    workspaces: Option<Vec<Workspace>>,
)
    requires
        BlackholesApp::reloads(before, after, workspaces, None),
    ensures
        after.tasks == before.tasks,
        after.session == before.session,
        after.surface == before.surface,
        after.workspaces == match workspaces {
            Some(workspaces) => workspaces,
            None => before.workspaces,
        },
{
}

} // verus!
