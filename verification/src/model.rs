//! The records the application works on.
use vstd::prelude::*;
use vstd::string::*;

use crate::clock::Time;
use crate::ids::Id;
use crate::search::{first_where, position};
use crate::text::same_text;

verus! {

#[derive(Clone, Copy, Debug, PartialEq, Eq, Structural)]
pub enum Language {
    English,
    Spanish,
}

#[derive(Clone, Copy, Debug, PartialEq, Eq, Structural)]
pub enum AppTheme {
    Light,
    Dark,
}

#[derive(Clone, Copy, Debug, PartialEq, Eq, Structural)]
pub enum AgentKind {
    Shell,
    Claude,
    Codex,
    Gemini,
    OpenCode,
    Antigravity,
}

#[derive(Clone, Copy, Debug, PartialEq, Eq, Structural)]
pub enum SessionState {
    Restored,
    Idle,
    Working,
    Attention,
    Exited,
}

#[derive(Clone, Copy, Debug, PartialEq, Eq, Structural)]
pub enum WorkspaceColor {
    Slate,
    Coral,
    Peach,
    Amber,
    Sage,
    Mint,
    Sky,
    Lavender,
    Rose,
}

#[derive(Clone, Copy, Debug, PartialEq, Eq, Structural)]
pub enum WorkspaceLayout {
    Empty,
    SingleRepository,
    MultiRepository,
}

/// A Git repository of a project. Its path, like every path of the library, is
/// told from others by its components.
#[derive(Debug)]
pub struct Repository {
    pub id: Id,
    pub name: String,
    pub path: String,
    pub branch: Option<String>,
}

/// A project. `label` is the name it is shown under.
#[derive(Debug)]
pub struct Workspace {
    pub id: Id,
    pub label: String,
    pub root_path: Option<String>,
    pub repositories: Vec<Repository>,
    pub icon: String,
    pub color: WorkspaceColor,
    pub layout: WorkspaceLayout,
    pub ignored_repository_paths: Vec<String>,
    pub updated_at: Time,
}

/// A repository attached to a task, checked out in a worktree of its own.
#[derive(Debug)]
pub struct TaskRepository {
    pub repository_id: Id,
    pub worktree_path: String,
    pub branch: String,
}

/// What a task remembers of a terminal that was started for it.
#[derive(Debug)]
pub struct TaskSession {
    pub id: Id,
    pub repository_id: Option<Id>,
    pub terminal_local_id: Id,
    pub agent: AgentKind,
    pub label: String,
    pub state: SessionState,
    pub created_at: Time,
    pub updated_at: Time,
    pub exited_at: Option<Time>,
}

/// A task of a project. `branch` is the branch its worktrees are on.
#[derive(Debug)]
pub struct ProjectTask {
    pub id: Id,
    pub workspace_id: Id,
    pub title: String,
    pub icon: String,
    pub color: WorkspaceColor,
    pub branch: Option<String>,
    pub repositories: Vec<TaskRepository>,
    pub sessions: Vec<TaskSession>,
    pub worktree_root_path: String,
    pub sort_order: i64,
    pub created_at: Time,
    pub updated_at: Time,
}

/// Which of a provider's two profiles a recorded conversation belongs to.
#[derive(Clone, Copy, Debug, PartialEq, Eq, Structural)]
pub enum AgentProfile {
    Standard,
    Work,
}

/// A provider conversation recorded for a terminal.
#[derive(Debug)]
pub struct RecordedSession {
    pub id: String,
    pub profile: AgentProfile,
}

#[derive(Debug)]
pub struct TerminalDescriptor {
    pub id: Id,
    pub workspace_id: Id,
    pub task_id: Option<Id>,
    pub repository_id: Option<Id>,
    pub agent: AgentKind,
    pub label: String,
    pub cwd: String,
    pub state: SessionState,
    pub codex_session: Option<RecordedSession>,
    pub claude_session: Option<RecordedSession>,
    pub agent_config_dir: Option<String>,
    pub created_at: Time,
}

// ---------------------------------------------------------------------------
// Texts in the two languages
// ---------------------------------------------------------------------------
/// The text of the chosen language.
pub open spec fn in_language(language: Language, english: Seq<char>, spanish: Seq<char>) -> Seq<
    char,
> {
    match language {
        Language::English => english,
        Language::Spanish => spanish,
    }
}

/// The text of the chosen language.
pub fn tr<'a>(language: Language, english: &'a str, spanish: &'a str) -> (result: &'a str)
    ensures
        result@ == in_language(language, english@, spanish@),
{
    match language {
        Language::English => english,
        Language::Spanish => spanish,
    }
}

// ---------------------------------------------------------------------------
// Lookups
// ---------------------------------------------------------------------------
pub open spec fn workspace_is(id: Id) -> spec_fn(Workspace) -> bool {
    |workspace: Workspace| workspace.id == id
}

pub open spec fn task_is(id: Id) -> spec_fn(ProjectTask) -> bool {
    |task: ProjectTask| task.id == id
}

pub open spec fn repository_is(id: Id) -> spec_fn(Repository) -> bool {
    |repository: Repository| repository.id == id
}

pub open spec fn task_repository_is(id: Id) -> spec_fn(TaskRepository) -> bool {
    |repository: TaskRepository| repository.repository_id == id
}

pub open spec fn terminal_is(id: Id) -> spec_fn(TerminalDescriptor) -> bool {
    |terminal: TerminalDescriptor| terminal.id == id
}

pub open spec fn session_of(terminal_id: Id) -> spec_fn(TaskSession) -> bool {
    |session: TaskSession| session.terminal_local_id == terminal_id
}

pub open spec fn workspace_at(workspaces: Seq<Workspace>, id: Id) -> Option<int> {
    first_where(workspaces, workspace_is(id), 0)
}

pub open spec fn task_at(tasks: Seq<ProjectTask>, id: Id) -> Option<int> {
    first_where(tasks, task_is(id), 0)
}

pub open spec fn repository_at(repositories: Seq<Repository>, id: Id) -> Option<int> {
    first_where(repositories, repository_is(id), 0)
}

pub open spec fn task_repository_at(repositories: Seq<TaskRepository>, id: Id) -> Option<int> {
    first_where(repositories, task_repository_is(id), 0)
}

pub open spec fn terminal_at(terminals: Seq<TerminalDescriptor>, id: Id) -> Option<int> {
    first_where(terminals, terminal_is(id), 0)
}

/// The first project with the identifier.
pub fn find_workspace(workspaces: &Vec<Workspace>, id: Id) -> (result: Option<usize>)
    ensures
        position(result) == workspace_at(workspaces@, id),
        result matches Some(at) ==> at < workspaces@.len() && workspaces@[at as int].id == id,
{
    let mut index: usize = 0;
    while index < workspaces.len()
        invariant
            index <= workspaces@.len(),
            workspace_at(workspaces@, id) == first_where(
                workspaces@,
                workspace_is(id),
                index as int,
            ),
        decreases workspaces@.len() - index,
    {
        if workspaces[index].id == id {
            return Some(index);
        }
        index += 1;
    }
    None
}

/// The first task with the identifier.
pub fn find_task(tasks: &Vec<ProjectTask>, id: Id) -> (result: Option<usize>)
    ensures
        position(result) == task_at(tasks@, id),
        result matches Some(at) ==> at < tasks@.len() && tasks@[at as int].id == id,
{
    let mut index: usize = 0;
    while index < tasks.len()
        invariant
            index <= tasks@.len(),
            task_at(tasks@, id) == first_where(tasks@, task_is(id), index as int),
        decreases tasks@.len() - index,
    {
        if tasks[index].id == id {
            return Some(index);
        }
        index += 1;
    }
    None
}

/// The first repository with the identifier.
pub fn find_repository(repositories: &Vec<Repository>, id: Id) -> (result: Option<usize>)
    ensures
        position(result) == repository_at(repositories@, id),
        result matches Some(at) ==> at < repositories@.len() && repositories@[at as int].id == id,
{
    let mut index: usize = 0;
    while index < repositories.len()
        invariant
            index <= repositories@.len(),
            repository_at(repositories@, id) == first_where(
                repositories@,
                repository_is(id),
                index as int,
            ),
        decreases repositories@.len() - index,
    {
        if repositories[index].id == id {
            return Some(index);
        }
        index += 1;
    }
    None
}

/// The first attached repository with the identifier.
pub fn find_task_repository(repositories: &Vec<TaskRepository>, id: Id) -> (result: Option<usize>)
    ensures
        position(result) == task_repository_at(repositories@, id),
        result matches Some(at) ==> at < repositories@.len() && repositories@[at as int].repository_id
            == id,
{
    let mut index: usize = 0;
    while index < repositories.len()
        invariant
            index <= repositories@.len(),
            task_repository_at(repositories@, id) == first_where(
                repositories@,
                task_repository_is(id),
                index as int,
            ),
        decreases repositories@.len() - index,
    {
        if repositories[index].repository_id == id {
            return Some(index);
        }
        index += 1;
    }
    None
}

/// The first terminal with the identifier.
pub fn find_terminal(terminals: &Vec<TerminalDescriptor>, id: Id) -> (result: Option<usize>)
    ensures
        position(result) == terminal_at(terminals@, id),
        result matches Some(at) ==> at < terminals@.len() && terminals@[at as int].id == id,
{
    let mut index: usize = 0;
    while index < terminals.len()
        invariant
            index <= terminals@.len(),
            terminal_at(terminals@, id) == first_where(terminals@, terminal_is(id), index as int),
        decreases terminals@.len() - index,
    {
        if terminals[index].id == id {
            return Some(index);
        }
        index += 1;
    }
    None
}

// ---------------------------------------------------------------------------
// Lists of texts
// ---------------------------------------------------------------------------
/// A list of texts holds the text.
pub open spec fn has_text(items: Seq<String>, item: Seq<char>) -> bool {
    exists|i: int| 0 <= i < items.len() && (#[trigger] items[i])@ == item
}

/// Whether a list of texts holds the text.
pub fn contains_text(items: &Vec<String>, item: &str) -> (result: bool)
    ensures
        result == has_text(items@, item@),
{
    let mut index: usize = 0;
    while index < items.len()
        invariant
            index <= items@.len(),
            forall|i: int| 0 <= i < index ==> (#[trigger] items@[i])@ != item@,
        decreases items@.len() - index,
    {
        if same_text(items[index].as_str(), item) {
            return true;
        }
        index += 1;
    }
    false
}

/// An optional text by its characters.
pub open spec fn text_of(text: Option<String>) -> Option<Seq<char>> {
    match text {
        Some(text) => Some(text@),
        None => None,
    }
}

/// A copy of an optional text.
pub fn copy_text(text: &Option<String>) -> (result: Option<String>)
    ensures
        result == *text,
{
    match text {
        Some(text) => Some(text.clone()),
        None => None,
    }
}

} // verus!
