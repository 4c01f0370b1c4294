//! The rows of the sidebar, and where a project or task stands among them.
use vstd::prelude::*;
use vstd::string::*;

use crate::app::BlackholesApp;
use crate::git::{git_details, GitDetails};
use crate::ids::{contains_id, Id};
use crate::labels::{color_value, icon_named, project_icon_kind, workspace_color, AppIcon};
use crate::model::{
    find_repository, repository_at, text_of, AgentKind, SessionState, TerminalDescriptor,
};

verus! {

/// A row of the sidebar, by the positions of the records it shows.
#[derive(Clone, Copy, Debug, PartialEq, Eq, Structural)]
pub enum SidebarRow {
    Project { workspace: usize },
    Terminal { terminal: usize, indentation: u32 },
    Repository { workspace: usize, repository: usize },
    TasksHeading { workspace: usize },
    Task { workspace: usize, task: usize },
    TaskRepository { workspace: usize, task: usize, repository: usize },
}

/// The terminal belongs to the project, task and repository.
pub open spec fn belongs(
    terminal: TerminalDescriptor,
    workspace_id: Id,
    task_id: Option<Id>,
    repository_id: Option<Id>,
) -> bool {
    terminal.workspace_id == workspace_id && terminal.task_id == task_id && terminal.repository_id
        == repository_id
}

/// The rows of the terminals of a project, task or repository, in the order of
/// the session.
pub open spec fn terminal_rows(
    app: BlackholesApp,
    workspace_id: Id,
    task_id: Option<Id>,
    repository_id: Option<Id>,
    indentation: u32,
    from: int,
) -> Seq<SidebarRow>
    decreases app.session.terminals@.len() - from,
{
    let terminals = app.session.terminals@;
    if from < 0 || from >= terminals.len() {
        seq![]
    } else if belongs(terminals[from], workspace_id, task_id, repository_id) {
        seq![SidebarRow::Terminal { terminal: from as usize, indentation }] + terminal_rows(
            app,
            workspace_id,
            task_id,
            repository_id,
            indentation,
            from + 1,
        )
    } else {
        terminal_rows(app, workspace_id, task_id, repository_id, indentation, from + 1)
    }
}

/// The rows of the repositories of a project, each followed by its terminals.
pub open spec fn repository_rows(app: BlackholesApp, workspace: int, from: int) -> Seq<SidebarRow>
    decreases app.workspaces@[workspace].repositories@.len() - from,
{
    let record = app.workspaces@[workspace];
    if from < 0 || from >= record.repositories@.len() {
        seq![]
    } else {
        seq![
            SidebarRow::Repository { workspace: workspace as usize, repository: from as usize },
        ] + terminal_rows(app, record.id, None, Some(record.repositories@[from].id), 40, 0)
            + repository_rows(app, workspace, from + 1)
    }
}

/// The rows of the repositories of a task, each followed by its terminals.
pub open spec fn task_repository_rows(
    app: BlackholesApp,
    workspace: int,
    task: int,
    from: int,
) -> Seq<SidebarRow>
    decreases app.tasks@[task].repositories@.len() - from,
{
    let record = app.tasks@[task];
    if from < 0 || from >= record.repositories@.len() {
        seq![]
    } else {
        seq![
            SidebarRow::TaskRepository {
                workspace: workspace as usize,
                task: task as usize,
                repository: from as usize,
            },
        ] + terminal_rows(
            app,
            app.workspaces@[workspace].id,
            Some(record.id),
            Some(record.repositories@[from].repository_id),
            56,
            0,
        ) + task_repository_rows(app, workspace, task, from + 1)
    }
}

pub open spec fn workspace_expanded(app: BlackholesApp, workspace: int) -> bool {
    app.session.expanded_workspace_ids@.contains(app.workspaces@[workspace].id)
}

pub open spec fn task_expanded(app: BlackholesApp, task: int) -> bool {
    app.session.expanded_task_ids@.contains(app.tasks@[task].id)
}

pub open spec fn task_in(app: BlackholesApp, workspace: int, task: int) -> bool {
    app.tasks@[task].workspace_id == app.workspaces@[workspace].id
}

/// The row of a task, with its terminals and repositories where it is expanded.
pub open spec fn one_task_rows(app: BlackholesApp, workspace: int, task: int) -> Seq<SidebarRow> {
    seq![SidebarRow::Task { workspace: workspace as usize, task: task as usize }] + (if task_expanded(
        app,
        task,
    ) {
        terminal_rows(
            app,
            app.workspaces@[workspace].id,
            Some(app.tasks@[task].id),
            None,
            40,
            0,
        ) + task_repository_rows(app, workspace, task, 0)
    } else {
        seq![]
    })
}

/// The rows of the tasks of a project among the first `count` tasks.
pub open spec fn task_rows(app: BlackholesApp, workspace: int, count: int) -> Seq<SidebarRow>
    decreases count,
{
    if count <= 0 {
        seq![]
    } else if task_in(app, workspace, count - 1) {
        task_rows(app, workspace, count - 1) + one_task_rows(app, workspace, count - 1)
    } else {
        task_rows(app, workspace, count - 1)
    }
}

pub open spec fn has_tasks(app: BlackholesApp, workspace: int) -> bool {
    exists|task: int| 0 <= task < app.tasks@.len() && #[trigger] task_in(app, workspace, task)
}

/// The rows of an expanded project before its tasks.
pub open spec fn head_rows(app: BlackholesApp, workspace: int) -> Seq<SidebarRow> {
    terminal_rows(app, app.workspaces@[workspace].id, None, None, 24, 0) + repository_rows(
        app,
        workspace,
        0,
    ) + (if has_tasks(app, workspace) {
        seq![SidebarRow::TasksHeading { workspace: workspace as usize }]
    } else {
        seq![]
    })
}

/// The row of a project, with everything below it where it is expanded.
pub open spec fn workspace_rows(app: BlackholesApp, workspace: int) -> Seq<SidebarRow> {
    seq![SidebarRow::Project { workspace: workspace as usize }] + (if workspace_expanded(
        app,
        workspace,
    ) {
        head_rows(app, workspace) + task_rows(app, workspace, app.tasks@.len() as int)
    } else {
        seq![]
    })
}

/// The rows of the first `count` projects.
pub open spec fn rows_before(app: BlackholesApp, count: int) -> Seq<SidebarRow>
    decreases count,
{
    if count <= 0 {
        seq![]
    } else {
        rows_before(app, count - 1) + workspace_rows(app, count - 1)
    }
}

/// All rows of the sidebar.
pub open spec fn sidebar_rows(app: BlackholesApp) -> Seq<SidebarRow> {
    rows_before(app, app.workspaces@.len() as int)
}

impl BlackholesApp {
    fn push_terminal_rows(
        &self,
        workspace_id: Id,
        task_id: Option<Id>,
        repository_id: Option<Id>,
        indentation: u32,
        rows: &mut Vec<SidebarRow>,
    )
        ensures
            final(rows)@ == old(rows)@ + terminal_rows(
                *self,
                workspace_id,
                task_id,
                repository_id,
                indentation,
                0,
            ),
    {
        let ghost all = old(rows)@ + terminal_rows(
            *self,
            workspace_id,
            task_id,
            repository_id,
            indentation,
            0,
        );
        let mut index: usize = 0;
        while index < self.session.terminals.len()
            invariant
                index <= self.session.terminals@.len(),
                all == rows@ + terminal_rows(
                    *self,
                    workspace_id,
                    task_id,
                    repository_id,
                    indentation,
                    index as int,
                ),
            decreases self.session.terminals@.len() - index,
        {
            let terminal = &self.session.terminals[index];
            let ghost before = rows@;
            if terminal.workspace_id == workspace_id && terminal.task_id == task_id
                && terminal.repository_id == repository_id {
                rows.push(SidebarRow::Terminal { terminal: index, indentation });
                assert(all =~= rows@ + terminal_rows(
                    *self,
                    workspace_id,
                    task_id,
                    repository_id,
                    indentation,
                    index + 1,
                ));
            }
            index += 1;
        }
        assert(rows@ =~= all);
    }

    fn push_repository_rows(&self, workspace: usize, rows: &mut Vec<SidebarRow>)
        requires
            workspace < self.workspaces@.len(),
        ensures
            final(rows)@ == old(rows)@ + repository_rows(*self, workspace as int, 0),
    {
        let record = &self.workspaces[workspace];
        let ghost all = old(rows)@ + repository_rows(*self, workspace as int, 0);
        let mut index: usize = 0;
        while index < record.repositories.len()
            invariant
                workspace < self.workspaces@.len(),
                *record == self.workspaces@[workspace as int],
                index <= record.repositories@.len(),
                all == rows@ + repository_rows(*self, workspace as int, index as int),
            decreases record.repositories@.len() - index,
        {
            let ghost rest = repository_rows(*self, workspace as int, index + 1);
            let ghost before = rows@;
            let ghost own = terminal_rows(
                *self,
                record.id,
                None,
                Some(record.repositories@[index as int].id),
                40,
                0,
            );
            let row = SidebarRow::Repository { workspace, repository: index };
            rows.push(row);
            self.push_terminal_rows(
                record.id,
                None,
                Some(record.repositories[index].id),
                40,
                rows,
            );
            assert(rows@ + rest =~= before + (seq![row] + own + rest));
            index += 1;
        }
        assert(rows@ =~= all);
    }

    fn push_task_repository_rows(
        &self,
        workspace: usize,
        task: usize,
        rows: &mut Vec<SidebarRow>,
    )
        requires
            workspace < self.workspaces@.len(),
            task < self.tasks@.len(),
        ensures
            final(rows)@ == old(rows)@ + task_repository_rows(
                *self,
                workspace as int,
                task as int,
                0,
            ),
    {
        let record = &self.tasks[task];
        let workspace_id: Id = self.workspaces[workspace].id;
        let ghost all = old(rows)@ + task_repository_rows(*self, workspace as int, task as int, 0);
        let mut index: usize = 0;
        while index < record.repositories.len()
            invariant
                workspace < self.workspaces@.len(),
                workspace_id == self.workspaces@[workspace as int].id,
                task < self.tasks@.len(),
                *record == self.tasks@[task as int],
                index <= record.repositories@.len(),
                all == rows@ + task_repository_rows(
                    *self,
                    workspace as int,
                    task as int,
                    index as int,
                ),
            decreases record.repositories@.len() - index,
        {
            let ghost rest = task_repository_rows(*self, workspace as int, task as int, index + 1);
            let ghost before = rows@;
            let ghost own = terminal_rows(
                *self,
                workspace_id,
                Some(record.id),
                Some(record.repositories@[index as int].repository_id),
                56,
                0,
            );
            let row = SidebarRow::TaskRepository { workspace, task, repository: index };
            rows.push(row);
            self.push_terminal_rows(
                workspace_id,
                Some(record.id),
                Some(record.repositories[index].repository_id),
                56,
                rows,
            );
            assert(rows@ + rest =~= before + (seq![row] + own + rest));
            index += 1;
        }
        assert(rows@ =~= all);
    }

    fn push_one_task_rows(&self, workspace: usize, task: usize, rows: &mut Vec<SidebarRow>)
        requires
            workspace < self.workspaces@.len(),
            task < self.tasks@.len(),
        ensures
            final(rows)@ == old(rows)@ + one_task_rows(*self, workspace as int, task as int),
    {
        let workspace_id: Id = self.workspaces[workspace].id;
        let task_id: Id = self.tasks[task].id;
        rows.push(SidebarRow::Task { workspace, task });
        if contains_id(&self.session.expanded_task_ids, task_id) {
            self.push_terminal_rows(workspace_id, Some(task_id), None, 40, rows);
            self.push_task_repository_rows(workspace, task, rows);
        }
        assert(rows@ =~= old(rows)@ + one_task_rows(*self, workspace as int, task as int));
    }

    fn push_task_rows(&self, workspace: usize, rows: &mut Vec<SidebarRow>)
        requires
            workspace < self.workspaces@.len(),
        ensures
            final(rows)@ == old(rows)@ + task_rows(
                *self,
                workspace as int,
                self.tasks@.len() as int,
            ),
    {
        let workspace_id: Id = self.workspaces[workspace].id;
        let mut index: usize = 0;
        assert(rows@ =~= old(rows)@ + task_rows(*self, workspace as int, 0));
        while index < self.tasks.len()
            invariant
                workspace < self.workspaces@.len(),
                workspace_id == self.workspaces@[workspace as int].id,
                index <= self.tasks@.len(),
                rows@ == old(rows)@ + task_rows(*self, workspace as int, index as int),
            decreases self.tasks@.len() - index,
        {
            if self.tasks[index].workspace_id == workspace_id {
                let ghost before = rows@;
                self.push_one_task_rows(workspace, index, rows);
                assert(rows@ =~= old(rows)@ + task_rows(*self, workspace as int, index + 1));
            }
            index += 1;
        }
    }

    fn any_task_in(&self, workspace: usize) -> (result: bool)
        requires
            workspace < self.workspaces@.len(),
        ensures
            result == has_tasks(*self, workspace as int),
    {
        let workspace_id: Id = self.workspaces[workspace].id;
        let mut index: usize = 0;
        while index < self.tasks.len()
            invariant
                workspace < self.workspaces@.len(),
                workspace_id == self.workspaces@[workspace as int].id,
                index <= self.tasks@.len(),
                forall|task: int| 0 <= task < index ==> !#[trigger] task_in(
                    *self,
                    workspace as int,
                    task,
                ),
            decreases self.tasks@.len() - index,
        {
            if self.tasks[index].workspace_id == workspace_id {
                assert(task_in(*self, workspace as int, index as int));
                return true;
            }
            index += 1;
        }
        false
    }

    fn push_head_rows(&self, workspace: usize, rows: &mut Vec<SidebarRow>)
        requires
            workspace < self.workspaces@.len(),
        ensures
            final(rows)@ == old(rows)@ + head_rows(*self, workspace as int),
    {
        let workspace_id: Id = self.workspaces[workspace].id;
        self.push_terminal_rows(workspace_id, None, None, 24, rows);
        self.push_repository_rows(workspace, rows);
        if self.any_task_in(workspace) {
            rows.push(SidebarRow::TasksHeading { workspace });
        }
        assert(rows@ =~= old(rows)@ + head_rows(*self, workspace as int));
    }

    /// The rows of the sidebar, from the first project to the last.
    pub fn render_sidebar(&self) -> (result: Vec<SidebarRow>)
        ensures
            result@ == sidebar_rows(*self),
    {
        let mut rows: Vec<SidebarRow> = Vec::new();
        let mut index: usize = 0;
        while index < self.workspaces.len()
            invariant
                index <= self.workspaces@.len(),
                rows@ == rows_before(*self, index as int),
            decreases self.workspaces@.len() - index,
        {
            let ghost before = rows@;
            rows.push(SidebarRow::Project { workspace: index });
            if contains_id(&self.session.expanded_workspace_ids, self.workspaces[index].id) {
                self.push_head_rows(index, &mut rows);
                self.push_task_rows(index, &mut rows);
            }
            assert(rows@ =~= before + workspace_rows(*self, index as int));
            index += 1;
        }
        rows
    }
}

// ---------------------------------------------------------------------------
// Where a project or task stands
// ---------------------------------------------------------------------------
/// The number of expanded tasks of a project among the first `count` tasks.
pub open spec fn expanded_tasks(app: BlackholesApp, workspace: int, count: int) -> int
    decreases count,
{
    if count <= 0 {
        0
    } else {
        expanded_tasks(app, workspace, count - 1) + if task_in(app, workspace, count - 1)
            && task_expanded(app, count - 1) {
            1int
        } else {
            0
        }
    }
}

/// The number of expanded projects and tasks among the first `count` projects.
pub open spec fn groups_before(app: BlackholesApp, count: int) -> int
    decreases count,
{
    if count <= 0 {
        0
    } else {
        groups_before(app, count - 1) + if workspace_expanded(app, count - 1) {
            1 + expanded_tasks(app, count - 1, app.tasks@.len() as int)
        } else {
            0
        }
    }
}

/// The scroll position of a project: its row, counting one line more for each
/// expanded project and task above it.
pub open spec fn workspace_position(app: BlackholesApp, workspace: int) -> int {
    rows_before(app, workspace).len() + groups_before(app, workspace)
}

/// The rows above a task of an expanded project.
pub open spec fn rows_above_task(app: BlackholesApp, workspace: int, task: int) -> Seq<SidebarRow> {
    rows_before(app, workspace) + seq![SidebarRow::Project { workspace: workspace as usize }]
        + head_rows(app, workspace) + task_rows(app, workspace, task)
}

/// The scroll position of a task: its row, counting one line more for each
/// expanded project and task above it.
pub open spec fn task_position(app: BlackholesApp, workspace: int, task: int) -> int {
    rows_above_task(app, workspace, task).len() + groups_before(app, workspace) + 1
        + expanded_tasks(app, workspace, task)
}

/// The positions of the whole sidebar fit the machine.
pub open spec fn sidebar_fits(app: BlackholesApp) -> bool {
    sidebar_rows(app).len() + groups_before(app, app.workspaces@.len() as int) <= usize::MAX
}

/// The first project with the identifier, at or after `from`, by its position.
pub open spec fn workspace_row(app: BlackholesApp, id: Id, from: int) -> Option<int>
    decreases app.workspaces@.len() - from,
{
    if from < 0 || from >= app.workspaces@.len() {
        None
    } else if app.workspaces@[from].id == id {
        Some(workspace_position(app, from))
    } else {
        workspace_row(app, id, from + 1)
    }
}

/// The first task of the project with the identifier, at or after `from`.
pub open spec fn task_of(app: BlackholesApp, workspace: int, id: Id, from: int) -> Option<int>
    decreases app.tasks@.len() - from,
{
    if from < 0 || from >= app.tasks@.len() {
        None
    } else if task_in(app, workspace, from) && app.tasks@[from].id == id {
        Some(from)
    } else {
        task_of(app, workspace, id, from + 1)
    }
}

/// The first row of the task in an expanded project, at or after `from`, by its
/// position.
pub open spec fn task_row(app: BlackholesApp, id: Id, from: int) -> Option<int>
    decreases app.workspaces@.len() - from,
{
    if from < 0 || from >= app.workspaces@.len() {
        None
    } else if !workspace_expanded(app, from) {
        task_row(app, id, from + 1)
    } else {
        match task_of(app, from, id, 0) {
            Some(task) => Some(task_position(app, from, task)),
            None => task_row(app, id, from + 1),
        }
    }
}

proof fn lemma_expanded_tasks(app: BlackholesApp, workspace: int, few: int, many: int)
    requires
        few <= many,
    ensures
        0 <= expanded_tasks(app, workspace, few) <= expanded_tasks(app, workspace, many),
        task_rows(app, workspace, few).len() <= task_rows(app, workspace, many).len(),
    decreases many,
{
    if few < many && many > 0 {
        lemma_expanded_tasks(app, workspace, few, many - 1);
    } else if many > 0 {
        lemma_expanded_tasks(app, workspace, many - 1, many - 1);
    }
}

proof fn lemma_few_expanded(app: BlackholesApp, workspace: int, count: int)
    requires
        0 <= count,
    ensures
        expanded_tasks(app, workspace, count) <= count,
    decreases count,
{
    if count > 0 {
        lemma_few_expanded(app, workspace, count - 1);
    }
}

proof fn lemma_groups(app: BlackholesApp, few: int, many: int)
    requires
        few <= many,
    ensures
        0 <= groups_before(app, few) <= groups_before(app, many),
        rows_before(app, few).len() <= rows_before(app, many).len(),
    decreases many,
{
    if many > 0 {
        lemma_expanded_tasks(app, many - 1, 0, app.tasks@.len() as int);
        if few < many {
            lemma_groups(app, few, many - 1);
        } else {
            lemma_groups(app, many - 1, many - 1);
        }
    }
}

impl BlackholesApp {
    /// Counts the expanded tasks of a project among the first `count` tasks.
    fn count_expanded_tasks(&self, workspace: usize, count: usize) -> (result: usize)
        requires
            workspace < self.workspaces@.len(),
            count <= self.tasks@.len(),
            expanded_tasks(*self, workspace as int, count as int) <= usize::MAX,
        ensures
            result == expanded_tasks(*self, workspace as int, count as int),
    {
        let workspace_id: Id = self.workspaces[workspace].id;
        let mut total: usize = 0;
        let mut index: usize = 0;
        while index < count
            invariant
                workspace < self.workspaces@.len(),
                workspace_id == self.workspaces@[workspace as int].id,
                index <= count <= self.tasks@.len(),
                expanded_tasks(*self, workspace as int, count as int) <= usize::MAX,
                total == expanded_tasks(*self, workspace as int, index as int),
            decreases count - index,
        {
            proof {
                lemma_expanded_tasks(*self, workspace as int, index + 1, count as int);
            }
            if self.tasks[index].workspace_id == workspace_id && contains_id(
                &self.session.expanded_task_ids,
                self.tasks[index].id,
            ) {
                total += 1;
            }
            index += 1;
        }
        total
    }

    /// Whether the positions of the whole sidebar fit the machine.
    pub fn sidebar_is_small(&self) -> (result: bool)
        ensures
            result == sidebar_fits(*self),
    {
        let rows: usize = self.render_sidebar().len();
        let room: usize = usize::MAX - rows;
        let mut groups: usize = 0;
        let mut index: usize = 0;
        while index < self.workspaces.len()
            invariant
                rows == sidebar_rows(*self).len(),
                room == usize::MAX - rows,
                index <= self.workspaces@.len(),
                groups == groups_before(*self, index as int),
                groups <= room,
            decreases self.workspaces@.len() - index,
        {
            let ghost count = self.tasks@.len() as int;
            proof {
                lemma_groups(*self, index + 1, self.workspaces@.len() as int);
                lemma_expanded_tasks(*self, index as int, 0, count);
                lemma_few_expanded(*self, index as int, count);
            }
            if contains_id(&self.session.expanded_workspace_ids, self.workspaces[index].id) {
                let expanded: usize = self.count_expanded_tasks(index, self.tasks.len());
                if expanded >= room - groups {
                    return false;
                }
                groups = groups + 1 + expanded;
            }
            index += 1;
        }
        true
    }

    /// The scroll position of the first project with the identifier.
    pub fn sidebar_workspace_row_index(&self, target_workspace_id: Id) -> (result: Option<usize>)
        requires
            sidebar_fits(*self),
        ensures
            crate::search::position(result) == workspace_row(*self, target_workspace_id, 0),
    {
        let mut rows: Vec<SidebarRow> = Vec::new();
        let mut groups: usize = 0;
        let mut index: usize = 0;
        while index < self.workspaces.len()
            invariant
                sidebar_fits(*self),
                index <= self.workspaces@.len(),
                rows@ == rows_before(*self, index as int),
                groups == groups_before(*self, index as int),
                workspace_row(*self, target_workspace_id, 0) == workspace_row(
                    *self,
                    target_workspace_id,
                    index as int,
                ),
            decreases self.workspaces@.len() - index,
        {
            proof {
                lemma_groups(*self, index as int, self.workspaces@.len() as int);
                lemma_groups(*self, index + 1, self.workspaces@.len() as int);
                lemma_expanded_tasks(*self, index as int, 0, self.tasks@.len() as int);
            }
            if self.workspaces[index].id == target_workspace_id {
                return Some(rows.len() + groups);
            }
            let ghost before = rows@;
            rows.push(SidebarRow::Project { workspace: index });
            if contains_id(&self.session.expanded_workspace_ids, self.workspaces[index].id) {
                self.push_head_rows(index, &mut rows);
                self.push_task_rows(index, &mut rows);
                let expanded: usize = self.count_expanded_tasks(index, self.tasks.len());
                groups = groups + 1 + expanded;
            }
            assert(rows@ =~= before + workspace_rows(*self, index as int));
            index += 1;
        }
        None
    }

    fn find_task_of(&self, workspace: usize, id: Id) -> (result: Option<usize>)
        requires
            workspace < self.workspaces@.len(),
        ensures
            crate::search::position(result) == task_of(*self, workspace as int, id, 0),
            result matches Some(task) ==> task < self.tasks@.len() && task_in(
                *self,
                workspace as int,
                task as int,
            ),
    {
        let workspace_id: Id = self.workspaces[workspace].id;
        let mut index: usize = 0;
        while index < self.tasks.len()
            invariant
                workspace < self.workspaces@.len(),
                workspace_id == self.workspaces@[workspace as int].id,
                index <= self.tasks@.len(),
                task_of(*self, workspace as int, id, 0) == task_of(
                    *self,
                    workspace as int,
                    id,
                    index as int,
                ),
            decreases self.tasks@.len() - index,
        {
            if self.tasks[index].workspace_id == workspace_id && self.tasks[index].id == id {
                return Some(index);
            }
            index += 1;
        }
        None
    }

    /// The scroll position of the first row of the task.
    pub fn sidebar_task_row_index(&self, task_id: Id) -> (result: Option<usize>)
        requires
            sidebar_fits(*self),
        ensures
            crate::search::position(result) == task_row(*self, task_id, 0),
    {
        let mut rows: Vec<SidebarRow> = Vec::new();
        let mut groups: usize = 0;
        let mut index: usize = 0;
        while index < self.workspaces.len()
            invariant
                sidebar_fits(*self),
                index <= self.workspaces@.len(),
                rows@ == rows_before(*self, index as int),
                groups == groups_before(*self, index as int),
                task_row(*self, task_id, 0) == task_row(*self, task_id, index as int),
            decreases self.workspaces@.len() - index,
        {
            proof {
                lemma_groups(*self, index + 1, self.workspaces@.len() as int);
                lemma_groups(*self, index as int, index + 1);
                lemma_expanded_tasks(*self, index as int, 0, self.tasks@.len() as int);
            }
            let ghost before = rows@;
            rows.push(SidebarRow::Project { workspace: index });
            if contains_id(&self.session.expanded_workspace_ids, self.workspaces[index].id) {
                self.push_head_rows(index, &mut rows);
                if let Some(task) = self.find_task_of(index, task_id) {
                    let mut at: usize = 0;
                    assert(rows@ =~= rows_above_task(*self, index as int, 0));
                    while at < task
                        invariant
                            index < self.workspaces@.len(),
                            at <= task < self.tasks@.len(),
                            rows@ == rows_above_task(*self, index as int, at as int),
                        decreases task - at,
                    {
                        if self.tasks[at].workspace_id == self.workspaces[index].id {
                            self.push_one_task_rows(index, at, &mut rows);
                        }
                        assert(rows@ =~= rows_above_task(*self, index as int, at + 1));
                        at += 1;
                    }
                    proof {
                        lemma_expanded_tasks(
                            *self,
                            index as int,
                            task as int,
                            self.tasks@.len() as int,
                        );
                    }
                    let expanded: usize = self.count_expanded_tasks(index, task);
                    return Some(rows.len() + groups + 1 + expanded);
                }
                self.push_task_rows(index, &mut rows);
                let expanded: usize = self.count_expanded_tasks(index, self.tasks.len());
                groups = groups + 1 + expanded;
            }
            assert(rows@ =~= before + workspace_rows(*self, index as int));
            index += 1;
        }
        None
    }
}

// ---------------------------------------------------------------------------
// Rows and positions agree
// ---------------------------------------------------------------------------
proof fn lemma_rows_prefix(app: BlackholesApp, few: int, many: int)
    requires
        0 <= few <= many,
    ensures
        rows_before(app, few).len() <= rows_before(app, many).len(),
        forall|i: int|
            0 <= i < rows_before(app, few).len() ==> rows_before(app, few)[i] == rows_before(
                app,
                many,
            )[i],
    decreases many,
{
    if few < many {
        lemma_rows_prefix(app, few, many - 1);
    }
}

/// The row that stands at a project's position, less one line for each expanded
/// project and task above it, is the project's row.
pub proof fn law_workspace_row(app: BlackholesApp, workspace: int)
    requires
        0 <= workspace < app.workspaces@.len(),
        app.workspaces@.len() <= usize::MAX,
    ensures
        ({
            let row = workspace_position(app, workspace) - groups_before(app, workspace);
            &&& 0 <= row < sidebar_rows(app).len()
            &&& sidebar_rows(app)[row] == SidebarRow::Project { workspace: workspace as usize }
        }),
{
    lemma_rows_prefix(app, workspace + 1, app.workspaces@.len() as int);
    let row = rows_before(app, workspace).len() as int;
    assert(rows_before(app, workspace + 1)[row] == workspace_rows(app, workspace)[0]);
}

proof fn lemma_task_prefix(app: BlackholesApp, workspace: int, few: int, many: int)
    requires
        0 <= few <= many,
    ensures
        task_rows(app, workspace, few).len() <= task_rows(app, workspace, many).len(),
        forall|i: int|
            0 <= i < task_rows(app, workspace, few).len() ==> task_rows(app, workspace, few)[i]
                == task_rows(app, workspace, many)[i],
    decreases many,
{
    if few < many {
        lemma_task_prefix(app, workspace, few, many - 1);
    }
}

/// The row that stands at a task's position, less one line for each expanded
/// project and task above it, is the task's row.
pub proof fn law_task_row(app: BlackholesApp, workspace: int, task: int)
    requires
        0 <= workspace < app.workspaces@.len(),
        0 <= task < app.tasks@.len(),
        workspace_expanded(app, workspace),
        task_in(app, workspace, task),
    ensures
        ({
            let above = groups_before(app, workspace) + 1 + expanded_tasks(app, workspace, task);
            let row = task_position(app, workspace, task) - above;
            &&& 0 <= row < sidebar_rows(app).len()
            &&& sidebar_rows(app)[row] == SidebarRow::Task {
                workspace: workspace as usize,
                task: task as usize,
            }
        }),
{
    lemma_rows_prefix(app, workspace + 1, app.workspaces@.len() as int);
    lemma_task_prefix(app, workspace, task + 1, app.tasks@.len() as int);
    let above = rows_above_task(app, workspace, task);
    let inside = above.len() - rows_before(app, workspace).len();
    let own = workspace_rows(app, workspace);
    let tasks = task_rows(app, workspace, app.tasks@.len() as int);
    let before = task_rows(app, workspace, task).len() as int;
    assert(task_rows(app, workspace, task + 1)[before] == one_task_rows(app, workspace, task)[0]);
    assert(tasks[before] == task_rows(app, workspace, task + 1)[before]);
    assert(own[inside] == tasks[before]);
    assert(rows_before(app, workspace + 1)[above.len() as int] == own[inside]);
}

/// Projects stand in their order, each one above those behind it.
pub proof fn law_projects_in_order(app: BlackholesApp, earlier: int, later: int)
    requires
        0 <= earlier < later < app.workspaces@.len(),
    ensures
        rows_before(app, earlier).len() < rows_before(app, later).len(),
        workspace_position(app, earlier) < workspace_position(app, later),
{
    lemma_rows_prefix(app, earlier + 1, later);
    lemma_groups(app, earlier, later);
}

/// The tasks of expanded projects stand in the order of their projects, and within
/// a project in their own order: below the project, and above what comes later.
pub proof fn law_tasks_in_order(
    app: BlackholesApp,
    workspace: int,
    task: int,
    later_workspace: int,
    later_task: int,
)
    requires
        0 <= workspace < app.workspaces@.len(),
        0 <= later_workspace < app.workspaces@.len(),
        0 <= task < app.tasks@.len(),
        0 <= later_task < app.tasks@.len(),
        workspace_expanded(app, workspace),
        workspace_expanded(app, later_workspace),
        task_in(app, workspace, task),
        task_in(app, later_workspace, later_task),
        workspace < later_workspace || (workspace == later_workspace && task < later_task),
    ensures
        workspace_position(app, workspace) < task_position(app, workspace, task),
        rows_above_task(app, workspace, task).len() < rows_above_task(
            app,
            later_workspace,
            later_task,
        ).len(),
        task_position(app, workspace, task) < task_position(app, later_workspace, later_task),
        workspace < later_workspace ==> task_position(app, workspace, task) < workspace_position(
            app,
            later_workspace,
        ),
{
    let all = app.tasks@.len() as int;
    lemma_expanded_tasks(app, workspace, 0, task);
    if workspace == later_workspace {
        lemma_task_prefix(app, workspace, task + 1, later_task);
        lemma_expanded_tasks(app, workspace, task, later_task);
    } else {
        lemma_expanded_tasks(app, later_workspace, 0, later_task);
        lemma_task_prefix(app, workspace, task + 1, all);
        lemma_expanded_tasks(app, workspace, task, all);
        lemma_rows_prefix(app, workspace + 1, later_workspace);
        lemma_groups(app, workspace + 1, later_workspace);
    }
}

// ---------------------------------------------------------------------------
// What a row shows
// ---------------------------------------------------------------------------
/// What a row shows.
#[derive(Debug)]
pub enum SidebarRowView {
    Project { label: String, icon: AppIcon, color: u32, selected: bool, expanded: bool },
    Terminal {
        terminal_id: Id,
        label: String,
        agent: AgentKind,
        state: SessionState,
        selected: bool,
        indentation: u32,
    },
    Repository { name: String, details: GitDetails, selected: bool, indentation: u32 },
    TasksHeading { text: &'static str },
    Task {
        title: String,
        icon: AppIcon,
        color: u32,
        selected: bool,
        expanded: bool,
        unseen: bool,
    },
}

/// The records of a row are there.
pub open spec fn row_is_current(app: BlackholesApp, row: SidebarRow) -> bool {
    match row {
        SidebarRow::Project { workspace } => workspace < app.workspaces@.len(),
        SidebarRow::Terminal { terminal, .. } => terminal < app.session.terminals@.len(),
        SidebarRow::Repository { workspace, repository } => workspace < app.workspaces@.len()
            && repository < app.workspaces@[workspace as int].repositories@.len(),
        SidebarRow::TasksHeading { .. } => true,
        SidebarRow::Task { task, .. } => task < app.tasks@.len(),
        SidebarRow::TaskRepository { workspace, task, repository } => workspace
            < app.workspaces@.len() && task < app.tasks@.len() && repository
            < app.tasks@[task as int].repositories@.len(),
    }
}

impl SidebarRow {
    /// Whether the records of the row are there.
    pub fn is_current(&self, app: &BlackholesApp) -> (result: bool)
        ensures
            result == row_is_current(*app, *self),
    {
        match *self {
            SidebarRow::Project { workspace } => workspace < app.workspaces.len(),
            SidebarRow::Terminal { terminal, .. } => terminal < app.session.terminals.len(),
            SidebarRow::Repository { workspace, repository } => workspace < app.workspaces.len()
                && repository < app.workspaces[workspace].repositories.len(),
            SidebarRow::TasksHeading { .. } => true,
            SidebarRow::Task { task, .. } => task < app.tasks.len(),
            SidebarRow::TaskRepository { workspace, task, repository } => workspace
                < app.workspaces.len() && task < app.tasks.len() && repository
                < app.tasks[task].repositories.len(),
        }
    }
}

/// The name of a repository of a project, `repository` where the project has none such.
pub open spec fn repository_name(app: BlackholesApp, workspace: int, repository_id: Id) -> Seq<char> {
    match repository_at(app.workspaces@[workspace].repositories@, repository_id) {
        Some(at) => app.workspaces@[workspace].repositories@[at].name@,
        None => "repository"@,
    }
}

/// The terminal that is marked as shown: none where another page is.
pub open spec fn active_terminal(app: BlackholesApp) -> Option<Id> {
    if app.surface.show_terminal {
        app.terminal_selected()
    } else {
        None
    }
}

/// What a row shows.
pub open spec fn row_shows(app: BlackholesApp, row: SidebarRow, view: SidebarRowView) -> bool {
    match row {
        SidebarRow::Project { workspace } => {
            let record = app.workspaces@[workspace as int];
            &&& view matches SidebarRowView::Project { label, icon, color, selected, expanded }
            &&& label@ == record.label@
            &&& icon == icon_named(record.icon@)
            &&& color == color_value(record.color)
            &&& selected == (app.session.selected_workspace_id == Some(record.id))
            &&& expanded == workspace_expanded(app, workspace as int)
        },
        SidebarRow::Terminal { terminal, indentation: wanted } => {
            let record = app.session.terminals@[terminal as int];
            &&& view matches SidebarRowView::Terminal {
                terminal_id,
                label,
                agent,
                state,
                selected,
                indentation,
            }
            &&& terminal_id == record.id
            &&& label@ == record.label@
            &&& agent == record.agent
            &&& state == record.state
            &&& selected == (active_terminal(app) == Some(record.id))
            &&& indentation == wanted
        },
        SidebarRow::Repository { workspace, repository } => {
            let owner = app.workspaces@[workspace as int];
            let record = owner.repositories@[repository as int];
            &&& view matches SidebarRowView::Repository { name, details, selected, indentation }
            &&& name@ == record.name@
            &&& git_details(app.git, record.path@, text_of(record.branch), details)
            &&& selected == (app.session.selected_workspace_id == Some(owner.id)
                && app.session.selected_task_id is None && app.session.selected_repository_id == Some(
                record.id,
            ))
            &&& indentation == 24
        },
        SidebarRow::TasksHeading { .. } => {
            &&& view matches SidebarRowView::TasksHeading { text: label }
            &&& label@ == app.text("TASKS"@, "TAREAS"@)
        },
        SidebarRow::Task { task, .. } => {
            let record = app.tasks@[task as int];
            &&& view matches SidebarRowView::Task { title, icon, color, selected, expanded, unseen }
            &&& title@ == record.title@
            &&& icon == icon_named(record.icon@)
            &&& color == color_value(record.color)
            &&& selected == (app.session.selected_task_id == Some(record.id))
            &&& expanded == task_expanded(app, task as int)
            &&& unseen == app.session.unseen_task_ids@.contains(record.id)
        },
        SidebarRow::TaskRepository { workspace, task, repository } => {
            let owner = app.tasks@[task as int];
            let record = owner.repositories@[repository as int];
            &&& view matches SidebarRowView::Repository { name, details, selected, indentation }
            &&& name@ == repository_name(app, workspace as int, record.repository_id)
            &&& git_details(app.git, record.worktree_path@, Some(record.branch@), details)
            &&& selected == (app.session.selected_task_id == Some(owner.id)
                && app.session.selected_repository_id == Some(record.repository_id))
            &&& indentation == 40
        },
    }
}

impl BlackholesApp {
    /// The terminal that is marked as shown.
    pub fn shown_terminal(&self) -> (result: Option<Id>)
        ensures
            result == active_terminal(*self),
    {
        if self.surface.show_terminal {
            self.selected_terminal_id()
        } else {
            None
        }
    }

    /// The name of a repository of a project.
    pub(crate) fn name_of_repository(&self, workspace: usize, repository_id: Id) -> (result: String)
        requires
            workspace < self.workspaces@.len(),
        ensures
            result@ == repository_name(*self, workspace as int, repository_id),
    {
        match find_repository(&self.workspaces[workspace].repositories, repository_id) {
            Some(at) => self.workspaces[workspace].repositories[at].name.clone(),
            None => "repository".to_string(),
        }
    }

    /// What a row shows.
    pub fn describe_sidebar_row(&self, row: SidebarRow) -> (result: SidebarRowView)
        requires
            row_is_current(*self, row),
        ensures
            row_shows(*self, row, result),
    {
        match row {
            SidebarRow::Project { workspace } => {
                let record = &self.workspaces[workspace];
                SidebarRowView::Project {
                    label: record.label.clone(),
                    icon: project_icon_kind(record.icon.as_str()),
                    color: workspace_color(record.color),
                    selected: self.session.selected_workspace_id == Some(record.id),
                    expanded: contains_id(&self.session.expanded_workspace_ids, record.id),
                }
            },
            SidebarRow::Terminal { terminal, indentation } => {
                let record = &self.session.terminals[terminal];
                SidebarRowView::Terminal {
                    terminal_id: record.id,
                    label: record.label.clone(),
                    agent: record.agent,
                    state: record.state,
                    selected: self.shown_terminal() == Some(record.id),
                    indentation,
                }
            },
            SidebarRow::Repository { workspace, repository } => {
                let owner = &self.workspaces[workspace];
                let record = &owner.repositories[repository];
                let fallback = match &record.branch {
                    Some(branch) => Some(branch.as_str()),
                    None => None,
                };
                let selected: bool = self.session.selected_workspace_id == Some(owner.id)
                    && self.session.selected_task_id.is_none()
                    && self.session.selected_repository_id == Some(record.id);
                SidebarRowView::Repository {
                    name: record.name.clone(),
                    details: self.repository_git_details(record.path.as_str(), fallback),
                    selected,
                    indentation: 24,
                }
            },
            SidebarRow::TasksHeading { .. } => SidebarRowView::TasksHeading {
                text: self.tr("TASKS", "TAREAS"),
            },
            SidebarRow::Task { task, .. } => {
                let record = &self.tasks[task];
                SidebarRowView::Task {
                    title: record.title.clone(),
                    icon: project_icon_kind(record.icon.as_str()),
                    color: workspace_color(record.color),
                    selected: self.session.selected_task_id == Some(record.id),
                    expanded: contains_id(&self.session.expanded_task_ids, record.id),
                    unseen: contains_id(&self.session.unseen_task_ids, record.id),
                }
            },
            SidebarRow::TaskRepository { workspace, task, repository } => {
                let owner = &self.tasks[task];
                let record = &owner.repositories[repository];
                let selected: bool = self.session.selected_task_id == Some(owner.id)
                    && self.session.selected_repository_id == Some(record.repository_id);
                SidebarRowView::Repository {
                    name: self.name_of_repository(workspace, record.repository_id),
                    details: self.repository_git_details(
                        record.worktree_path.as_str(),
                        Some(record.branch.as_str()),
                    ),
                    selected,
                    indentation: 40,
                }
            },
        }
    }
}

// ---------------------------------------------------------------------------
// What the rows show
// ---------------------------------------------------------------------------
/// The row is of something that is not folded away: a project always shows, what is
/// right below it where it is expanded, and what is below a task where both are.
pub open spec fn is_unfolded(app: BlackholesApp, row: SidebarRow) -> bool {
    match row {
        SidebarRow::Project { workspace } => workspace < app.workspaces@.len(),
        SidebarRow::Repository { workspace, repository } => workspace < app.workspaces@.len()
            && repository < app.workspaces@[workspace as int].repositories@.len()
            && app.session.expanded_workspace_ids@.contains(app.workspaces@[workspace as int].id),
        SidebarRow::TasksHeading { workspace } => workspace < app.workspaces@.len()
            && app.session.expanded_workspace_ids@.contains(app.workspaces@[workspace as int].id),
        SidebarRow::Task { workspace, task } => workspace < app.workspaces@.len() && task
            < app.tasks@.len() && app.tasks@[task as int].workspace_id
            == app.workspaces@[workspace as int].id && app.session.expanded_workspace_ids@.contains(
            app.workspaces@[workspace as int].id,
        ),
        SidebarRow::TaskRepository { workspace, task, repository } => workspace
            < app.workspaces@.len() && task < app.tasks@.len() && app.tasks@[task as int].workspace_id
            == app.workspaces@[workspace as int].id && repository
            < app.tasks@[task as int].repositories@.len()
            && app.session.expanded_workspace_ids@.contains(app.workspaces@[workspace as int].id)
            && app.session.expanded_task_ids@.contains(app.tasks@[task as int].id),
        SidebarRow::Terminal { terminal, .. } => terminal < app.session.terminals@.len()
            && app.session.expanded_workspace_ids@.contains(
            app.session.terminals@[terminal as int].workspace_id,
        ) && (app.session.terminals@[terminal as int].task_id matches Some(task_id)
            ==> app.session.expanded_task_ids@.contains(task_id)),
    }
}

pub open spec fn all_unfolded(app: BlackholesApp, rows: Seq<SidebarRow>) -> bool {
    forall|i: int| 0 <= i < rows.len() ==> is_unfolded(app, #[trigger] rows[i])
}

proof fn lemma_terminals_unfolded(
    app: BlackholesApp,
    workspace_id: Id,
    task_id: Option<Id>,
    repository_id: Option<Id>,
    indentation: u32,
    from: int,
)
    requires
        0 <= from,
        app.session.terminals@.len() <= usize::MAX,
        app.session.expanded_workspace_ids@.contains(workspace_id),
        task_id matches Some(task) ==> app.session.expanded_task_ids@.contains(task),
    ensures
        all_unfolded(
            app,
            terminal_rows(app, workspace_id, task_id, repository_id, indentation, from),
        ),
        forall|t: int|
            from <= t < app.session.terminals@.len() && belongs(
                #[trigger] app.session.terminals@[t],
                workspace_id,
                task_id,
                repository_id,
            ) ==> terminal_rows(
                app,
                workspace_id,
                task_id,
                repository_id,
                indentation,
                from,
            ).contains(SidebarRow::Terminal { terminal: t as usize, indentation }),
    decreases app.session.terminals@.len() - from,
{
    let terminals = app.session.terminals@;
    if from < terminals.len() {
        lemma_terminals_unfolded(
            app,
            workspace_id,
            task_id,
            repository_id,
            indentation,
            from + 1,
        );
        let rest = terminal_rows(app, workspace_id, task_id, repository_id, indentation, from + 1);
        let rows = terminal_rows(app, workspace_id, task_id, repository_id, indentation, from);
        let shift: int = if belongs(terminals[from], workspace_id, task_id, repository_id) {
            1
        } else {
            0
        };
        assert(forall|i: int| 0 <= i < rest.len() ==> rows[i + shift] == #[trigger] rest[i]);
        assert forall|i: int| 0 <= i < rows.len() implies is_unfolded(app, #[trigger] rows[i]) by {
            if i >= shift {
                assert(rows[i] == rest[i - shift]);
            }
        }
        assert forall|t: int|
            from <= t < terminals.len() && belongs(
                #[trigger] terminals[t],
                workspace_id,
                task_id,
                repository_id,
            ) implies rows.contains(SidebarRow::Terminal { terminal: t as usize, indentation }) by {
            if t == from {
                assert(rows[0] == (SidebarRow::Terminal { terminal: t as usize, indentation }));
            } else {
                let k = choose|k: int|
                    0 <= k < rest.len() && rest[k] == (SidebarRow::Terminal {
                        terminal: t as usize,
                        indentation,
                    });
                assert(rows[k + shift] == rest[k]);
            }
        }
    }
}

proof fn lemma_repositories_unfolded(app: BlackholesApp, workspace: int, from: int)
    requires
        0 <= from,
        0 <= workspace < app.workspaces@.len() <= usize::MAX,
        app.workspaces@[workspace].repositories@.len() <= usize::MAX,
        app.session.terminals@.len() <= usize::MAX,
        workspace_expanded(app, workspace),
    ensures
        all_unfolded(app, repository_rows(app, workspace, from)),
    decreases app.workspaces@[workspace].repositories@.len() - from,
{
    let record = app.workspaces@[workspace];
    if from < record.repositories@.len() {
        lemma_repositories_unfolded(app, workspace, from + 1);
        let id = record.repositories@[from].id;
        lemma_terminals_unfolded(app, record.id, None, Some(id), 40, 0);
        let own = terminal_rows(app, record.id, None, Some(id), 40, 0);
        let rest = repository_rows(app, workspace, from + 1);
        let rows = repository_rows(app, workspace, from);
        let head = SidebarRow::Repository {
            workspace: workspace as usize,
            repository: from as usize,
        };
        assert(rows =~= seq![head] + own + rest);
        assert(rows[0] == head);
        assert forall|i: int| 0 <= i < rows.len() implies is_unfolded(app, #[trigger] rows[i]) by {
            if i > own.len() {
                assert(rows[i] == rest[i - 1 - own.len()]);
            } else if i > 0 {
                assert(rows[i] == own[i - 1]);
            }
        }
    }
}

proof fn lemma_repository_row(app: BlackholesApp, workspace: int, from: int, at: int)
    requires
        0 <= workspace < app.workspaces@.len(),
        0 <= from <= at < app.workspaces@[workspace].repositories@.len(),
    ensures
        repository_rows(app, workspace, from).contains(
            SidebarRow::Repository { workspace: workspace as usize, repository: at as usize },
        ),
    decreases at - from,
{
    let record = app.workspaces@[workspace];
    let own = terminal_rows(app, record.id, None, Some(record.repositories@[from].id), 40, 0);
    let rest = repository_rows(app, workspace, from + 1);
    let rows = repository_rows(app, workspace, from);
    let wanted = SidebarRow::Repository { workspace: workspace as usize, repository: at as usize };
    if at == from {
        assert(rows[0] == wanted);
    } else {
        lemma_repository_row(app, workspace, from + 1, at);
        let k = choose|k: int| 0 <= k < rest.len() && rest[k] == wanted;
        assert(rows[k + 1 + own.len()] == wanted);
    }
}

proof fn lemma_task_repositories_unfolded(app: BlackholesApp, workspace: int, task: int, from: int)
    requires
        0 <= from,
        0 <= workspace < app.workspaces@.len() <= usize::MAX,
        0 <= task < app.tasks@.len() <= usize::MAX,
        app.tasks@[task].repositories@.len() <= usize::MAX,
        app.session.terminals@.len() <= usize::MAX,
        workspace_expanded(app, workspace),
        task_expanded(app, task),
        task_in(app, workspace, task),
    ensures
        all_unfolded(app, task_repository_rows(app, workspace, task, from)),
    decreases app.tasks@[task].repositories@.len() - from,
{
    let record = app.tasks@[task];
    if from < record.repositories@.len() {
        lemma_task_repositories_unfolded(app, workspace, task, from + 1);
        let project = app.workspaces@[workspace].id;
        let id = record.repositories@[from].repository_id;
        lemma_terminals_unfolded(app, project, Some(record.id), Some(id), 56, 0);
        let own = terminal_rows(app, project, Some(record.id), Some(id), 56, 0);
        let rest = task_repository_rows(app, workspace, task, from + 1);
        let rows = task_repository_rows(app, workspace, task, from);
        assert forall|i: int| 0 <= i < rows.len() implies is_unfolded(app, #[trigger] rows[i]) by {
            if i > own.len() {
                assert(rows[i] == rest[i - 1 - own.len()]);
            } else if i > 0 {
                assert(rows[i] == own[i - 1]);
            }
        }
    }
}

proof fn lemma_tasks_unfolded(app: BlackholesApp, workspace: int, count: int)
    requires
        0 <= count <= app.tasks@.len() <= usize::MAX,
        0 <= workspace < app.workspaces@.len() <= usize::MAX,
        forall|t: int|
            0 <= t < app.tasks@.len() ==> (#[trigger] app.tasks@[t]).repositories@.len()
                <= usize::MAX,
        app.session.terminals@.len() <= usize::MAX,
        workspace_expanded(app, workspace),
    ensures
        all_unfolded(app, task_rows(app, workspace, count)),
    decreases count,
{
    if count > 0 {
        lemma_tasks_unfolded(app, workspace, count - 1);
        let task = count - 1;
        assert(app.tasks@[task].repositories@.len() <= usize::MAX);
        if task_in(app, workspace, task) {
            let project = app.workspaces@[workspace].id;
            let id = app.tasks@[task].id;
            let earlier = task_rows(app, workspace, count - 1);
            let one = one_task_rows(app, workspace, task);
            let rows = task_rows(app, workspace, count);
            if task_expanded(app, task) {
                lemma_terminals_unfolded(app, project, Some(id), None, 40, 0);
                lemma_task_repositories_unfolded(app, workspace, task, 0);
                let terminals = terminal_rows(app, project, Some(id), None, 40, 0);
                let repositories = task_repository_rows(app, workspace, task, 0);
                assert forall|i: int| 0 <= i < one.len() implies is_unfolded(
                    app,
                    #[trigger] one[i],
                ) by {
                    if i > terminals.len() {
                        assert(one[i] == repositories[i - 1 - terminals.len()]);
                    } else if i > 0 {
                        assert(one[i] == terminals[i - 1]);
                    }
                }
            }
            assert forall|i: int| 0 <= i < rows.len() implies is_unfolded(app, #[trigger] rows[i]) by {
                if i < earlier.len() {
                    assert(rows[i] == earlier[i]);
                } else {
                    assert(rows[i] == one[i - earlier.len()]);
                }
            }
        }
    }
}

proof fn lemma_projects_unfolded(app: BlackholesApp, count: int)
    requires
        0 <= count <= app.workspaces@.len() <= usize::MAX,
        app.tasks@.len() <= usize::MAX,
        app.session.terminals@.len() <= usize::MAX,
        forall|t: int|
            0 <= t < app.tasks@.len() ==> (#[trigger] app.tasks@[t]).repositories@.len()
                <= usize::MAX,
        forall|w: int|
            0 <= w < app.workspaces@.len() ==> (#[trigger] app.workspaces@[w]).repositories@.len()
                <= usize::MAX,
    ensures
        all_unfolded(app, rows_before(app, count)),
    decreases count,
{
    if count > 0 {
        let workspace = count - 1;
        lemma_projects_unfolded(app, workspace);
        assert(app.workspaces@[workspace].repositories@.len() <= usize::MAX);
        let earlier = rows_before(app, workspace);
        let own = workspace_rows(app, workspace);
        let rows = rows_before(app, count);
        if workspace_expanded(app, workspace) {
            let id = app.workspaces@[workspace].id;
            lemma_terminals_unfolded(app, id, None, None, 24, 0);
            lemma_repositories_unfolded(app, workspace, 0);
            lemma_tasks_unfolded(app, workspace, app.tasks@.len() as int);
            let terminals = terminal_rows(app, id, None, None, 24, 0);
            let repositories = repository_rows(app, workspace, 0);
            let head = head_rows(app, workspace);
            let tasks = task_rows(app, workspace, app.tasks@.len() as int);
            assert forall|i: int| 0 <= i < head.len() implies is_unfolded(app, #[trigger] head[i]) by {
                if i < terminals.len() {
                    assert(head[i] == terminals[i]);
                } else if i < terminals.len() + repositories.len() {
                    assert(head[i] == repositories[i - terminals.len()]);
                }
            }
            assert forall|i: int| 0 <= i < own.len() implies is_unfolded(app, #[trigger] own[i]) by {
                if i > head.len() {
                    assert(own[i] == tasks[i - 1 - head.len()]);
                } else if i > 0 {
                    assert(own[i] == head[i - 1]);
                }
            }
        }
        assert forall|i: int| 0 <= i < rows.len() implies is_unfolded(app, #[trigger] rows[i]) by {
            if i < earlier.len() {
                assert(rows[i] == earlier[i]);
            } else {
                assert(rows[i] == own[i - earlier.len()]);
            }
        }
    }
}

/// The sidebar shows nothing that is folded away, and of an expanded project all of its
/// own terminals and all of its repositories.
pub proof fn law_sidebar_unfolds(app: BlackholesApp, workspace: int, at: int)
    requires
        0 <= workspace < app.workspaces@.len() <= usize::MAX,
        app.tasks@.len() <= usize::MAX,
        app.session.terminals@.len() <= usize::MAX,
        forall|t: int|
            0 <= t < app.tasks@.len() ==> (#[trigger] app.tasks@[t]).repositories@.len()
                <= usize::MAX,
        forall|w: int|
            0 <= w < app.workspaces@.len() ==> (#[trigger] app.workspaces@[w]).repositories@.len()
                <= usize::MAX,
    ensures
        all_unfolded(app, sidebar_rows(app)),
        app.session.expanded_workspace_ids@.contains(app.workspaces@[workspace].id) && 0 <= at
            < app.workspaces@[workspace].repositories@.len() ==> sidebar_rows(app).contains(
            SidebarRow::Repository { workspace: workspace as usize, repository: at as usize },
        ),
        app.session.expanded_workspace_ids@.contains(app.workspaces@[workspace].id) && 0 <= at
            < app.session.terminals@.len() && app.session.terminals@[at].workspace_id
            == app.workspaces@[workspace].id && app.session.terminals@[at].task_id is None
            && app.session.terminals@[at].repository_id is None ==> sidebar_rows(app).contains(
            SidebarRow::Terminal { terminal: at as usize, indentation: 24 },
        ),
{
    lemma_projects_unfolded(app, app.workspaces@.len() as int);
    if workspace_expanded(app, workspace) {
        let id = app.workspaces@[workspace].id;
        assert(app.workspaces@[workspace].repositories@.len() <= usize::MAX);
        lemma_rows_prefix(app, workspace + 1, app.workspaces@.len() as int);
        lemma_terminals_unfolded(app, id, None, None, 24, 0);
        lemma_repositories_unfolded(app, workspace, 0);
        let terminals = terminal_rows(app, id, None, None, 24, 0);
        let repositories = repository_rows(app, workspace, 0);
        let earlier = rows_before(app, workspace).len();
        let own = workspace_rows(app, workspace);
        let rows = rows_before(app, workspace + 1);
        assert(forall|i: int| 0 <= i < own.len() ==> rows[i + earlier] == #[trigger] own[i]);
        if 0 <= at < app.workspaces@[workspace].repositories@.len() {
            let wanted = SidebarRow::Repository {
                workspace: workspace as usize,
                repository: at as usize,
            };
            lemma_repository_row(app, workspace, 0, at);
            let k = choose|k: int| 0 <= k < repositories.len() && repositories[k] == wanted;
            assert(own[1 + terminals.len() + k] == wanted);
            assert(rows[1 + terminals.len() + k + earlier] == wanted);
            assert(sidebar_rows(app)[1 + terminals.len() + k + earlier] == wanted);
        }
        if 0 <= at < app.session.terminals@.len() && belongs(
            app.session.terminals@[at],
            id,
            None,
            None,
        ) {
            let wanted = SidebarRow::Terminal { terminal: at as usize, indentation: 24 };
            assert(terminals.contains(wanted));
            let k = choose|k: int| 0 <= k < terminals.len() && terminals[k] == wanted;
            assert(own[1 + k] == wanted);
            assert(rows[1 + k + earlier] == wanted);
            assert(sidebar_rows(app)[1 + k + earlier] == wanted);
        }
    }
}

} // verus!
