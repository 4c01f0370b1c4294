//! The navigation tree that is published to the navigation surface.
use vstd::prelude::*;
use vstd::string::*;

use crate::app::{agent_name, BlackholesApp};
use crate::git::{git_details, GitDetails};
use crate::ids::{contains_id, Id};
use crate::labels::{color_css, workspace_color_css};
use crate::model::{
    find_task, find_workspace, task_at, text_of, workspace_at, AgentKind, AppTheme, Language,
    ProjectTask, Repository, TaskRepository, TerminalDescriptor,
};
use crate::search::lemma_filter_step;
use crate::sidebar::{active_terminal, belongs, repository_name};
use crate::text::{join3, views};

verus! {

#[derive(Debug)]
pub struct NavigationTerminal {
    pub id: Id,
    pub label: String,
    pub agent: AgentKind,
    pub provider_label: String,
    pub context: String,
    pub selected: bool,
}

#[derive(Debug)]
pub struct NavigationRepository {
    pub id: Id,
    pub name: String,
    pub details: GitDetails,
    pub selected: bool,
    pub terminals: Vec<NavigationTerminal>,
}

#[derive(Debug)]
pub struct NavigationTask {
    pub id: Id,
    pub title: String,
    pub icon: String,
    pub color: &'static str,
    pub expanded: bool,
    pub selected: bool,
    pub unseen: bool,
    pub terminals: Vec<NavigationTerminal>,
    pub repositories: Vec<NavigationRepository>,
}

#[derive(Debug)]
pub struct NavigationProject {
    pub id: Id,
    pub label: String,
    pub icon: String,
    pub color: &'static str,
    pub expanded: bool,
    pub selected: bool,
    pub terminals: Vec<NavigationTerminal>,
    pub repositories: Vec<NavigationRepository>,
    pub tasks: Vec<NavigationTask>,
}

/// The whole tree, with what is selected and expanded.
#[derive(Debug)]
pub struct NavigationSnapshot {
    pub language: Language,
    pub theme: AppTheme,
    pub settings_selected: bool,
    pub agent_order: Vec<String>,
    pub terminal_agents: Vec<NavigationTerminal>,
    pub projects: Vec<NavigationProject>,
}

// ---------------------------------------------------------------------------
// Terminals
// ---------------------------------------------------------------------------
/// Where a terminal is: its project, and its task behind a `/`; its directory
/// where the project is gone.
pub open spec fn terminal_context(app: BlackholesApp, terminal: TerminalDescriptor) -> Seq<char> {
    match workspace_at(app.workspaces@, terminal.workspace_id) {
        None => terminal.cwd@,
        Some(workspace) => {
            let project = app.workspaces@[workspace].label@;
            match terminal.task_id {
                Some(task_id) => match task_at(app.tasks@, task_id) {
                    Some(task) => project + "/"@ + app.tasks@[task].title@,
                    None => project,
                },
                None => project,
            }
        },
    }
}

/// What the tree shows of a terminal.
pub open spec fn shows_terminal(
    app: BlackholesApp,
    terminal: TerminalDescriptor,
    active: Option<Id>,
    view: NavigationTerminal,
) -> bool {
    &&& view.id == terminal.id
    &&& view.label@ == terminal.label@
    &&& view.agent == terminal.agent
    &&& view.provider_label@ == agent_name(app.agent_labels, terminal.agent)
    &&& view.context@ == terminal_context(app, terminal)
    &&& view.selected == (active == Some(terminal.id))
}

pub open spec fn shows_terminals(
    app: BlackholesApp,
    terminals: Seq<TerminalDescriptor>,
    active: Option<Id>,
    views: Seq<NavigationTerminal>,
) -> bool {
    &&& views.len() == terminals.len()
    &&& forall|i: int|
        0 <= i < terminals.len() ==> shows_terminal(app, terminals[i], active, #[trigger] views[i])
}

pub open spec fn belonging(workspace_id: Id, task_id: Option<Id>, repository_id: Option<Id>) -> spec_fn(
    TerminalDescriptor,
) -> bool {
    |terminal: TerminalDescriptor| belongs(terminal, workspace_id, task_id, repository_id)
}

pub open spec fn with_agent() -> spec_fn(TerminalDescriptor) -> bool {
    |terminal: TerminalDescriptor| terminal.agent != AgentKind::Shell
}

impl BlackholesApp {
    /// Where a terminal is.
    pub fn context_of_terminal(&self, terminal: &TerminalDescriptor) -> (result: String)
        ensures
            result@ == terminal_context(*self, *terminal),
    {
        match find_workspace(&self.workspaces, terminal.workspace_id) {
            None => terminal.cwd.clone(),
            Some(workspace) => {
                let project = &self.workspaces[workspace].label;
                match terminal.task_id {
                    Some(task_id) => match find_task(&self.tasks, task_id) {
                        Some(task) => join3(
                            project.as_str(),
                            "/",
                            self.tasks[task].title.as_str(),
                        ),
                        None => project.clone(),
                    },
                    None => project.clone(),
                }
            },
        }
    }

    /// What the tree shows of a terminal.
    pub fn navigation_terminal(
        &self,
        terminal: &TerminalDescriptor,
        active_terminal_id: Option<Id>,
    ) -> (result: NavigationTerminal)
        ensures
            shows_terminal(*self, *terminal, active_terminal_id, result),
    {
        NavigationTerminal {
            id: terminal.id,
            label: terminal.label.clone(),
            agent: terminal.agent,
            provider_label: self.agent_labels.label(terminal.agent).to_string(),
            context: self.context_of_terminal(terminal),
            selected: active_terminal_id == Some(terminal.id),
        }
    }

    /// What the tree shows of the terminals of a project, task or repository.
    fn navigation_terminals(
        &self,
        workspace_id: Id,
        task_id: Option<Id>,
        repository_id: Option<Id>,
        active: Option<Id>,
    ) -> (result: Vec<NavigationTerminal>)
        ensures
            shows_terminals(
                *self,
                self.session.terminals@.filter(belonging(workspace_id, task_id, repository_id)),
                active,
                result@,
            ),
    {
        let ghost keep = belonging(workspace_id, task_id, repository_id);
        let ghost terminals = self.session.terminals@;
        let mut result: Vec<NavigationTerminal> = Vec::new();
        let mut index: usize = 0;
        assert(terminals.take(0).filter(keep) =~= Seq::<TerminalDescriptor>::empty());
        while index < self.session.terminals.len()
            invariant
                terminals == self.session.terminals@,
                keep == belonging(workspace_id, task_id, repository_id),
                index <= terminals.len(),
                shows_terminals(*self, terminals.take(index as int).filter(keep), active, result@),
            decreases terminals.len() - index,
        {
            proof {
                lemma_filter_step(terminals, keep, index as int);
            }
            let terminal = &self.session.terminals[index];
            if terminal.workspace_id == workspace_id && terminal.task_id == task_id
                && terminal.repository_id == repository_id {
                result.push(self.navigation_terminal(terminal, active));
            }
            index += 1;
        }
        assert(terminals.take(index as int) =~= terminals);
        result
    }

    /// What the tree shows of the terminals that run an agent.
    fn navigation_agents(&self, active: Option<Id>) -> (result: Vec<NavigationTerminal>)
        ensures
            shows_terminals(
                *self,
                self.session.terminals@.filter(with_agent()),
                active,
                result@,
            ),
    {
        let ghost keep = with_agent();
        let ghost terminals = self.session.terminals@;
        let mut result: Vec<NavigationTerminal> = Vec::new();
        let mut index: usize = 0;
        assert(terminals.take(0).filter(keep) =~= Seq::<TerminalDescriptor>::empty());
        while index < self.session.terminals.len()
            invariant
                terminals == self.session.terminals@,
                keep == with_agent(),
                index <= terminals.len(),
                shows_terminals(*self, terminals.take(index as int).filter(keep), active, result@),
            decreases terminals.len() - index,
        {
            proof {
                lemma_filter_step(terminals, keep, index as int);
            }
            let terminal = &self.session.terminals[index];
            if terminal.agent != AgentKind::Shell {
                result.push(self.navigation_terminal(terminal, active));
            }
            index += 1;
        }
        assert(terminals.take(index as int) =~= terminals);
        result
    }
}

// ---------------------------------------------------------------------------
// Repositories
// ---------------------------------------------------------------------------
/// What the tree shows of a repository of a project.
pub open spec fn shows_repository(
    app: BlackholesApp,
    workspace: int,
    repository: Repository,
    active: Option<Id>,
    view: NavigationRepository,
) -> bool {
    let owner = app.workspaces@[workspace];
    &&& view.id == repository.id
    &&& view.name@ == repository.name@
    &&& git_details(app.git, repository.path@, text_of(repository.branch), view.details)
    &&& view.selected == (app.session.selected_workspace_id == Some(owner.id)
        && app.session.selected_task_id is None && app.session.selected_repository_id == Some(
        repository.id,
    ))
    &&& shows_terminals(
        app,
        app.session.terminals@.filter(belonging(owner.id, None, Some(repository.id))),
        active,
        view.terminals@,
    )
}

/// What the tree shows of a repository of a task.
pub open spec fn shows_task_repository(
    app: BlackholesApp,
    workspace: int,
    task: ProjectTask,
    repository: TaskRepository,
    active: Option<Id>,
    view: NavigationRepository,
) -> bool {
    &&& view.id == repository.repository_id
    &&& view.name@ == repository_name(app, workspace, repository.repository_id)
    &&& git_details(app.git, repository.worktree_path@, Some(repository.branch@), view.details)
    &&& view.selected == (app.session.selected_task_id == Some(task.id)
        && app.session.selected_repository_id == Some(repository.repository_id))
    &&& shows_terminals(
        app,
        app.session.terminals@.filter(
            belonging(
                app.workspaces@[workspace].id,
                Some(task.id),
                Some(repository.repository_id),
            ),
        ),
        active,
        view.terminals@,
    )
}

impl BlackholesApp {
    fn navigation_repositories(&self, workspace: usize, active: Option<Id>) -> (result: Vec<
        NavigationRepository,
    >)
        requires
            workspace < self.workspaces@.len(),
        ensures
            result@.len() == self.workspaces@[workspace as int].repositories@.len(),
            forall|i: int|
                0 <= i < result@.len() ==> shows_repository(
                    *self,
                    workspace as int,
                    self.workspaces@[workspace as int].repositories@[i],
                    active,
                    #[trigger] result@[i],
                ),
    {
        let owner = &self.workspaces[workspace];
        let mut result: Vec<NavigationRepository> = Vec::new();
        let mut index: usize = 0;
        while index < owner.repositories.len()
            invariant
                workspace < self.workspaces@.len(),
                *owner == self.workspaces@[workspace as int],
                index <= owner.repositories@.len(),
                result@.len() == index,
                forall|i: int|
                    0 <= i < index ==> shows_repository(
                        *self,
                        workspace as int,
                        owner.repositories@[i],
                        active,
                        #[trigger] result@[i],
                    ),
            decreases owner.repositories@.len() - index,
        {
            let repository = &owner.repositories[index];
            let fallback = match &repository.branch {
                Some(branch) => Some(branch.as_str()),
                None => None,
            };
            let selected: bool = self.session.selected_workspace_id == Some(owner.id)
                && self.session.selected_task_id.is_none() && self.session.selected_repository_id
                == Some(repository.id);
            result.push(
                NavigationRepository {
                    id: repository.id,
                    name: repository.name.clone(),
                    details: self.repository_git_details(repository.path.as_str(), fallback),
                    selected,
                    terminals: self.navigation_terminals(
                        owner.id,
                        None,
                        Some(repository.id),
                        active,
                    ),
                },
            );
            index += 1;
        }
        result
    }

    fn navigation_task_repositories(
        &self,
        workspace: usize,
        task: &ProjectTask,
        active: Option<Id>,
    ) -> (result: Vec<NavigationRepository>)
        requires
            workspace < self.workspaces@.len(),
        ensures
            result@.len() == task.repositories@.len(),
            forall|i: int|
                0 <= i < result@.len() ==> shows_task_repository(
                    *self,
                    workspace as int,
                    *task,
                    task.repositories@[i],
                    active,
                    #[trigger] result@[i],
                ),
    {
        let workspace_id: Id = self.workspaces[workspace].id;
        let mut result: Vec<NavigationRepository> = Vec::new();
        let mut index: usize = 0;
        while index < task.repositories.len()
            invariant
                workspace < self.workspaces@.len(),
                workspace_id == self.workspaces@[workspace as int].id,
                index <= task.repositories@.len(),
                result@.len() == index,
                forall|i: int|
                    0 <= i < index ==> shows_task_repository(
                        *self,
                        workspace as int,
                        *task,
                        task.repositories@[i],
                        active,
                        #[trigger] result@[i],
                    ),
            decreases task.repositories@.len() - index,
        {
            let repository = &task.repositories[index];
            let selected: bool = self.session.selected_task_id == Some(task.id)
                && self.session.selected_repository_id == Some(repository.repository_id);
            result.push(
                NavigationRepository {
                    id: repository.repository_id,
                    name: self.name_of_repository(workspace, repository.repository_id),
                    details: self.repository_git_details(
                        repository.worktree_path.as_str(),
                        Some(repository.branch.as_str()),
                    ),
                    selected,
                    terminals: self.navigation_terminals(
                        workspace_id,
                        Some(task.id),
                        Some(repository.repository_id),
                        active,
                    ),
                },
            );
            index += 1;
        }
        result
    }
}

// ---------------------------------------------------------------------------
// Tasks and projects
// ---------------------------------------------------------------------------
/// What the tree shows of a task.
pub open spec fn shows_task(
    app: BlackholesApp,
    workspace: int,
    task: ProjectTask,
    active: Option<Id>,
    view: NavigationTask,
) -> bool {
    &&& view.id == task.id
    &&& view.title@ == task.title@
    &&& view.icon@ == task.icon@
    &&& view.color@ == color_css(task.color)
    &&& view.expanded == app.session.expanded_task_ids@.contains(task.id)
    &&& view.selected == (app.session.selected_task_id == Some(task.id))
    &&& view.unseen == app.session.unseen_task_ids@.contains(task.id)
    &&& shows_terminals(
        app,
        app.session.terminals@.filter(
            belonging(app.workspaces@[workspace].id, Some(task.id), None),
        ),
        active,
        view.terminals@,
    )
    &&& view.repositories@.len() == task.repositories@.len()
    &&& forall|i: int|
        0 <= i < task.repositories@.len() ==> shows_task_repository(
            app,
            workspace,
            task,
            task.repositories@[i],
            active,
            #[trigger] view.repositories@[i],
        )
}

pub open spec fn task_of_project(workspace_id: Id) -> spec_fn(ProjectTask) -> bool {
    |task: ProjectTask| task.workspace_id == workspace_id
}

pub open spec fn shows_tasks(
    app: BlackholesApp,
    workspace: int,
    tasks: Seq<ProjectTask>,
    active: Option<Id>,
    views: Seq<NavigationTask>,
) -> bool {
    &&& views.len() == tasks.len()
    &&& forall|i: int|
        0 <= i < tasks.len() ==> shows_task(app, workspace, tasks[i], active, #[trigger] views[i])
}

/// What the tree shows of a project.
pub open spec fn shows_project(
    app: BlackholesApp,
    workspace: int,
    active: Option<Id>,
    view: NavigationProject,
) -> bool {
    let record = app.workspaces@[workspace];
    &&& view.id == record.id
    &&& view.label@ == record.label@
    &&& view.icon@ == record.icon@
    &&& view.color@ == color_css(record.color)
    &&& view.expanded == app.session.expanded_workspace_ids@.contains(record.id)
    &&& view.selected == (app.session.selected_workspace_id == Some(record.id)
        && app.session.selected_task_id is None)
    &&& shows_terminals(
        app,
        app.session.terminals@.filter(belonging(record.id, None, None)),
        active,
        view.terminals@,
    )
    &&& view.repositories@.len() == record.repositories@.len()
    &&& forall|i: int|
        0 <= i < record.repositories@.len() ==> shows_repository(
            app,
            workspace,
            record.repositories@[i],
            active,
            #[trigger] view.repositories@[i],
        )
    &&& shows_tasks(
        app,
        workspace,
        app.tasks@.filter(task_of_project(record.id)),
        active,
        view.tasks@,
    )
}

/// What the whole tree shows.
pub open spec fn shows_navigation(app: BlackholesApp, view: NavigationSnapshot) -> bool {
    let active = active_terminal(app);
    &&& view.language == app.session.language
    &&& view.theme == app.session.theme
    &&& view.settings_selected == app.surface.show_settings
    &&& views(view.agent_order@) == views(app.session.agent_order@)
    &&& shows_terminals(
        app,
        app.session.terminals@.filter(with_agent()),
        active,
        view.terminal_agents@,
    )
    &&& view.projects@.len() == app.workspaces@.len()
    &&& forall|i: int|
        0 <= i < app.workspaces@.len() ==> shows_project(app, i, active, #[trigger] view.projects@[i])
}

/// A copy of a list of texts.
pub fn copy_texts(items: &Vec<String>) -> (result: Vec<String>)
    ensures
        result@ == items@,
{
    let mut result: Vec<String> = Vec::new();
    let mut index: usize = 0;
    while index < items.len()
        invariant
            index <= items@.len(),
            result@ == items@.take(index as int),
        decreases items@.len() - index,
    {
        result.push(items[index].clone());
        assert(items@.take(index + 1) =~= items@.take(index as int).push(items@[index as int]));
        index += 1;
    }
    assert(items@.take(index as int) =~= items@);
    result
}

impl BlackholesApp {
    fn navigation_tasks(&self, workspace: usize, active: Option<Id>) -> (result: Vec<NavigationTask>)
        requires
            workspace < self.workspaces@.len(),
        ensures
            shows_tasks(
                *self,
                workspace as int,
                self.tasks@.filter(task_of_project(self.workspaces@[workspace as int].id)),
                active,
                result@,
            ),
    {
        let workspace_id: Id = self.workspaces[workspace].id;
        let ghost keep = task_of_project(workspace_id);
        let ghost tasks = self.tasks@;
        let mut result: Vec<NavigationTask> = Vec::new();
        let mut index: usize = 0;
        assert(tasks.take(0).filter(keep) =~= Seq::<ProjectTask>::empty());
        while index < self.tasks.len()
            invariant
                workspace < self.workspaces@.len(),
                workspace_id == self.workspaces@[workspace as int].id,
                tasks == self.tasks@,
                keep == task_of_project(workspace_id),
                index <= tasks.len(),
                shows_tasks(
                    *self,
                    workspace as int,
                    tasks.take(index as int).filter(keep),
                    active,
                    result@,
                ),
            decreases tasks.len() - index,
        {
            proof {
                lemma_filter_step(tasks, keep, index as int);
            }
            let task = &self.tasks[index];
            if task.workspace_id == workspace_id {
                result.push(
                    NavigationTask {
                        id: task.id,
                        title: task.title.clone(),
                        icon: task.icon.clone(),
                        color: workspace_color_css(task.color),
                        expanded: contains_id(&self.session.expanded_task_ids, task.id),
                        selected: self.session.selected_task_id == Some(task.id),
                        unseen: contains_id(&self.session.unseen_task_ids, task.id),
                        terminals: self.navigation_terminals(
                            workspace_id,
                            Some(task.id),
                            None,
                            active,
                        ),
                        repositories: self.navigation_task_repositories(workspace, task, active),
                    },
                );
            }
            index += 1;
        }
        assert(tasks.take(index as int) =~= tasks);
        result
    }

    /// The navigation tree.
    pub fn hydrate_navigation(&self) -> (result: NavigationSnapshot)
        ensures
            shows_navigation(*self, result),
    {
        let active: Option<Id> = self.shown_terminal();
        let mut projects: Vec<NavigationProject> = Vec::new();
        let mut index: usize = 0;
        while index < self.workspaces.len()
            invariant
                active == active_terminal(*self),
                index <= self.workspaces@.len(),
                projects@.len() == index,
                forall|i: int|
                    0 <= i < index ==> shows_project(*self, i, active, #[trigger] projects@[i]),
            decreases self.workspaces@.len() - index,
        {
            let record = &self.workspaces[index];
            let selected: bool = self.session.selected_workspace_id == Some(record.id)
                && self.session.selected_task_id.is_none();
            projects.push(
                NavigationProject {
                    id: record.id,
                    label: record.label.clone(),
                    icon: record.icon.clone(),
                    color: workspace_color_css(record.color),
                    expanded: contains_id(&self.session.expanded_workspace_ids, record.id),
                    selected,
                    terminals: self.navigation_terminals(record.id, None, None, active),
                    repositories: self.navigation_repositories(index, active),
                    tasks: self.navigation_tasks(index, active),
                },
            );
            index += 1;
        }
        NavigationSnapshot {
            language: self.session.language,
            theme: self.session.theme,
            settings_selected: self.surface.show_settings,
            agent_order: copy_texts(&self.session.agent_order),
            terminal_agents: self.navigation_agents(active),
            projects,
        }
    }
}

// ---------------------------------------------------------------------------
// What the tree holds
// ---------------------------------------------------------------------------
/// The tree holds every project in its place, marked as expanded and selected where it
/// is, with all of its repositories, every one of its tasks and every terminal of its
/// own; and every agent besides.
pub proof fn law_tree_complete(app: BlackholesApp, view: NavigationSnapshot, project: int, at: int)
    requires
        shows_navigation(app, view),
        0 <= project < app.workspaces@.len(),
    ensures
        view.projects@.len() == app.workspaces@.len(),
        view.projects@[project].id == app.workspaces@[project].id,
        view.projects@[project].label@ == app.workspaces@[project].label@,
        view.projects@[project].expanded == app.session.expanded_workspace_ids@.contains(
            app.workspaces@[project].id,
        ),
        view.projects@[project].selected <==> app.session.selected_workspace_id == Some(
            app.workspaces@[project].id,
        ) && app.session.selected_task_id is None,
        0 <= at < app.workspaces@[project].repositories@.len()
            ==> view.projects@[project].repositories@.len()
            == app.workspaces@[project].repositories@.len()
            && view.projects@[project].repositories@[at].id
            == app.workspaces@[project].repositories@[at].id
            && view.projects@[project].repositories@[at].name@
            == app.workspaces@[project].repositories@[at].name@,
        0 <= at < app.tasks@.len() && app.tasks@[at].workspace_id == app.workspaces@[project].id
            ==> exists|i: int|
            0 <= i < view.projects@[project].tasks@.len() && (
            #[trigger] view.projects@[project].tasks@[i]).id == app.tasks@[at].id
                && view.projects@[project].tasks@[i].title@ == app.tasks@[at].title@
                && view.projects@[project].tasks@[i].unseen
                == app.session.unseen_task_ids@.contains(app.tasks@[at].id)
                && view.projects@[project].tasks@[i].selected == (app.session.selected_task_id
                == Some(app.tasks@[at].id)),
        0 <= at < app.session.terminals@.len() && app.session.terminals@[at].workspace_id
            == app.workspaces@[project].id && app.session.terminals@[at].task_id is None
            && app.session.terminals@[at].repository_id is None ==> exists|i: int|
            0 <= i < view.projects@[project].terminals@.len() && (
            #[trigger] view.projects@[project].terminals@[i]).id == app.session.terminals@[at].id
                && view.projects@[project].terminals@[i].label@ == app.session.terminals@[at].label@,
        0 <= at < app.session.terminals@.len() && app.session.terminals@[at].agent
            != AgentKind::Shell ==> exists|i: int|
            0 <= i < view.terminal_agents@.len() && (#[trigger] view.terminal_agents@[i]).id
                == app.session.terminals@[at].id && view.terminal_agents@[i].agent
                == app.session.terminals@[at].agent,
        forall|i: int|
            0 <= i < view.terminal_agents@.len() ==> (#[trigger] view.terminal_agents@[i]).agent
                != AgentKind::Shell,
{
    let active = active_terminal(app);
    let shown = view.projects@[project];
    let record = app.workspaces@[project];
    assert(shows_project(app, project, active, shown));
    let terminals = app.session.terminals@;
    if 0 <= at < record.repositories@.len() {
        assert(shows_repository(
            app,
            project,
            record.repositories@[at],
            active,
            shown.repositories@[at],
        ));
    }
    if 0 <= at < app.tasks@.len() && app.tasks@[at].workspace_id == record.id {
        let keep = task_of_project(record.id);
        let tasks = app.tasks@.filter(keep);
        app.tasks@.lemma_filter_contains(keep, at);
        let i = choose|i: int| 0 <= i < tasks.len() && tasks[i] == app.tasks@[at];
        assert(shows_task(app, project, tasks[i], active, shown.tasks@[i]));
    }
    if 0 <= at < terminals.len() && belongs(terminals[at], record.id, None, None) {
        let keep = belonging(record.id, None, None);
        let own = terminals.filter(keep);
        terminals.lemma_filter_contains(keep, at);
        let i = choose|i: int| 0 <= i < own.len() && own[i] == terminals[at];
        assert(shows_terminal(app, own[i], active, shown.terminals@[i]));
    }
    let agents = terminals.filter(with_agent());
    if 0 <= at < terminals.len() && terminals[at].agent != AgentKind::Shell {
        terminals.lemma_filter_contains(with_agent(), at);
        let i = choose|i: int| 0 <= i < agents.len() && agents[i] == terminals[at];
        assert(shows_terminal(app, agents[i], active, view.terminal_agents@[i]));
    }
    assert forall|i: int| 0 <= i < view.terminal_agents@.len() implies (
    #[trigger] view.terminal_agents@[i]).agent != AgentKind::Shell by {
        terminals.lemma_filter_pred(with_agent(), i);
        assert(shows_terminal(app, agents[i], active, view.terminal_agents@[i]));
    }
}

/// A terminal is marked as shown only while the terminals are the page, and then only
/// the one in front.
pub proof fn law_one_terminal_marked(app: BlackholesApp, view: NavigationSnapshot, i: int)
    requires
        shows_navigation(app, view),
        0 <= i < view.terminal_agents@.len(),
    ensures
        view.terminal_agents@[i].selected <==> app.surface.show_terminal
            && app.terminal_selected() == Some(view.terminal_agents@[i].id),
{
    let agents = app.session.terminals@.filter(with_agent());
    assert(shows_terminal(app, agents[i], active_terminal(app), view.terminal_agents@[i]));
}

} // verus!
