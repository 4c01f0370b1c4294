//! The Git summaries of repositories: which are known, which are being read,
//! and which have to be read again.
use vstd::prelude::*;
use vstd::string::*;

use crate::app::{BlackholesApp, GitSummaries, RepositoryGitSummary};
use crate::effects::{Effect, GitScope};
use crate::ids::Id;
use crate::model::{
    find_repository, find_task, find_task_repository, find_terminal, find_workspace, repository_at,
    task_at, task_repository_at, terminal_at, text_of, workspace_at, Repository, TaskRepository,
};
use crate::paths::components;
use crate::text::{decimal, decimal_text, join2, views};

verus! {

// ---------------------------------------------------------------------------
// Which paths belong to a scope
// ---------------------------------------------------------------------------
pub open spec fn repository_paths(repositories: Seq<Repository>) -> Seq<Seq<char>> {
    repositories.map_values(|repository: Repository| repository.path@)
}

pub open spec fn worktree_paths(repositories: Seq<TaskRepository>) -> Seq<Seq<char>> {
    repositories.map_values(|repository: TaskRepository| repository.worktree_path@)
}

/// The paths of a scope; none where the project, task or repository is gone.
pub open spec fn scope_paths(app: BlackholesApp, scope: GitScope) -> Seq<Seq<char>> {
    match scope {
        GitScope::Project { workspace_id } => match workspace_at(app.workspaces@, workspace_id) {
            Some(at) => repository_paths(app.workspaces@[at].repositories@),
            None => seq![],
        },
        GitScope::Repository { workspace_id, repository_id } => match workspace_at(
            app.workspaces@,
            workspace_id,
        ) {
            Some(at) => match repository_at(app.workspaces@[at].repositories@, repository_id) {
                Some(repository) => seq![app.workspaces@[at].repositories@[repository].path@],
                None => seq![],
            },
            None => seq![],
        },
        GitScope::Task { task_id } => match task_at(app.tasks@, task_id) {
            Some(at) => worktree_paths(app.tasks@[at].repositories@),
            None => seq![],
        },
        GitScope::TaskRepository { task_id, repository_id } => match task_at(app.tasks@, task_id) {
            Some(at) => match task_repository_at(app.tasks@[at].repositories@, repository_id) {
                Some(repository) => seq![app.tasks@[at].repositories@[repository].worktree_path@],
                None => seq![],
            },
            None => seq![],
        },
    }
}

fn paths_of_repositories(repositories: &Vec<Repository>) -> (result: Vec<String>)
    ensures
        views(result@) == repository_paths(repositories@),
{
    let mut result: Vec<String> = Vec::new();
    let mut index: usize = 0;
    while index < repositories.len()
        invariant
            index <= repositories@.len(),
            views(result@) == repository_paths(repositories@.take(index as int)),
        decreases repositories@.len() - index,
    {
        let ghost before = result@;
        result.push(repositories[index].path.clone());
        assert(views(result@) =~= views(before).push(repositories@[index as int].path@));
        assert(repository_paths(repositories@.take(index + 1)) =~= repository_paths(
            repositories@.take(index as int),
        ).push(repositories@[index as int].path@));
        index += 1;
    }
    assert(repositories@.take(index as int) =~= repositories@);
    result
}

fn paths_of_worktrees(repositories: &Vec<TaskRepository>) -> (result: Vec<String>)
    ensures
        views(result@) == worktree_paths(repositories@),
{
    let mut result: Vec<String> = Vec::new();
    let mut index: usize = 0;
    while index < repositories.len()
        invariant
            index <= repositories@.len(),
            views(result@) == worktree_paths(repositories@.take(index as int)),
        decreases repositories@.len() - index,
    {
        let ghost before = result@;
        result.push(repositories[index].worktree_path.clone());
        assert(views(result@) =~= views(before).push(repositories@[index as int].worktree_path@));
        assert(worktree_paths(repositories@.take(index + 1)) =~= worktree_paths(
            repositories@.take(index as int),
        ).push(repositories@[index as int].worktree_path@));
        index += 1;
    }
    assert(repositories@.take(index as int) =~= repositories@);
    result
}

fn one_path(path: &String) -> (result: Vec<String>)
    ensures
        views(result@) == seq![path@],
{
    let mut result: Vec<String> = Vec::new();
    result.push(path.clone());
    assert(views(result@) =~= seq![path@]);
    result
}

fn no_paths() -> (result: Vec<String>)
    ensures
        views(result@) == Seq::<Seq<char>>::empty(),
{
    let result: Vec<String> = Vec::new();
    assert(views(result@) =~= Seq::<Seq<char>>::empty());
    result
}

impl BlackholesApp {
    /// The paths of a scope.
    pub fn paths_in_scope(&self, scope: GitScope) -> (result: Vec<String>)
        ensures
            views(result@) == scope_paths(*self, scope),
    {
        match scope {
            GitScope::Project { workspace_id } => match find_workspace(
                &self.workspaces,
                workspace_id,
            ) {
                Some(at) => paths_of_repositories(&self.workspaces[at].repositories),
                None => no_paths(),
            },
            GitScope::Repository { workspace_id, repository_id } => match find_workspace(
                &self.workspaces,
                workspace_id,
            ) {
                Some(at) => match find_repository(
                    &self.workspaces[at].repositories,
                    repository_id,
                ) {
                    Some(repository) => one_path(
                        &self.workspaces[at].repositories[repository].path,
                    ),
                    None => no_paths(),
                },
                None => no_paths(),
            },
            GitScope::Task { task_id } => match find_task(&self.tasks, task_id) {
                Some(at) => paths_of_worktrees(&self.tasks[at].repositories),
                None => no_paths(),
            },
            GitScope::TaskRepository { task_id, repository_id } => match find_task(
                &self.tasks,
                task_id,
            ) {
                Some(at) => match find_task_repository(
                    &self.tasks[at].repositories,
                    repository_id,
                ) {
                    Some(repository) => one_path(
                        &self.tasks[at].repositories[repository].worktree_path,
                    ),
                    None => no_paths(),
                },
                None => no_paths(),
            },
        }
    }

    /// Asks for the summaries of the repositories of a project.
    pub fn request_workspace_git_summaries(&mut self, workspace_id: Id)
        ensures
            Self::requests(
                *old(self),
                *final(self),
                seq![
                    Effect::InspectRepositories { scope: GitScope::Project { workspace_id } },
                ],
            ),
    {
        self.emit(Effect::InspectRepositories { scope: GitScope::Project { workspace_id } });
    }

    /// Asks for the summaries of the worktrees of a task.
    pub fn request_task_git_summaries(&mut self, task_id: Id)
        ensures
            Self::requests(
                *old(self),
                *final(self),
                seq![Effect::InspectRepositories { scope: GitScope::Task { task_id } }],
            ),
    {
        self.emit(Effect::InspectRepositories { scope: GitScope::Task { task_id } });
    }

    /// The requests for the summaries of everything that is expanded.
    pub open spec fn inspects_expanded(&self) -> Seq<Effect> {
        self.session.expanded_workspace_ids@.map_values(
            |workspace_id: Id|
                Effect::InspectRepositories { scope: GitScope::Project { workspace_id } },
        ) + self.session.expanded_task_ids@.map_values(
            |task_id: Id| Effect::InspectRepositories { scope: GitScope::Task { task_id } },
        )
    }

    /// Asks for the summaries of every project and task that is expanded.
    pub fn refresh_expanded_repository_git_summaries(&mut self)
        ensures
            Self::requests(*old(self), *final(self), old(self).inspects_expanded()),
    {
        let ghost projects = self.session.expanded_workspace_ids@.map_values(
            |workspace_id: Id|
                Effect::InspectRepositories { scope: GitScope::Project { workspace_id } },
        );
        let ghost tasks = self.session.expanded_task_ids@.map_values(
            |task_id: Id| Effect::InspectRepositories { scope: GitScope::Task { task_id } },
        );
        let project_count: usize = self.session.expanded_workspace_ids.len();
        let mut index: usize = 0;
        assert(self.effects@ =~= old(self).effects@ + projects.take(0));
        while index < project_count
            invariant
                index <= project_count == projects.len(),
                project_count == self.session.expanded_workspace_ids@.len(),
                projects == self.session.expanded_workspace_ids@.map_values(
                    |workspace_id: Id|
                        Effect::InspectRepositories { scope: GitScope::Project { workspace_id } },
                ),
                Self::requests(*old(self), *self, projects.take(index as int)),
            decreases project_count - index,
        {
            let workspace_id: Id = self.session.expanded_workspace_ids[index];
            self.request_workspace_git_summaries(workspace_id);
            index += 1;
            assert(self.effects@ =~= old(self).effects@ + projects.take(index as int));
        }
        assert(projects.take(index as int) =~= projects);
        let task_count: usize = self.session.expanded_task_ids.len();
        let mut index: usize = 0;
        assert(projects + tasks.take(0) =~= projects);
        while index < task_count
            invariant
                index <= task_count == tasks.len(),
                task_count == self.session.expanded_task_ids@.len(),
                tasks == self.session.expanded_task_ids@.map_values(
                    |task_id: Id| Effect::InspectRepositories { scope: GitScope::Task { task_id } },
                ),
                Self::requests(*old(self), *self, projects + tasks.take(index as int)),
            decreases task_count - index,
        {
            let task_id: Id = self.session.expanded_task_ids[index];
            self.request_task_git_summaries(task_id);
            index += 1;
            assert(self.effects@ =~= old(self).effects@ + (projects + tasks.take(index as int)));
        }
        assert(tasks.take(index as int) =~= tasks);
    }

    /// The repositories that a terminal works in.
    pub open spec fn terminal_scope(&self, terminal_id: Id) -> Option<GitScope> {
        match terminal_at(self.session.terminals@, terminal_id) {
            None => None,
            Some(at) => {
                let terminal = self.session.terminals@[at];
                if workspace_at(self.workspaces@, terminal.workspace_id) is None {
                    None
                } else {
                    Some(
                        match (terminal.task_id, terminal.repository_id) {
                            (Some(task_id), Some(repository_id)) => GitScope::TaskRepository {
                                task_id,
                                repository_id,
                            },
                            (Some(task_id), None) => GitScope::Task { task_id },
                            (None, Some(repository_id)) => GitScope::Repository {
                                workspace_id: terminal.workspace_id,
                                repository_id,
                            },
                            (None, None) => GitScope::Project {
                                workspace_id: terminal.workspace_id,
                            },
                        },
                    )
                }
            },
        }
    }

    /// The requests for the summaries of the repositories of a terminal.
    pub open spec fn inspects_terminal(&self, terminal_id: Id) -> Seq<Effect> {
        match self.terminal_scope(terminal_id) {
            Some(scope) => seq![Effect::InspectRepositories { scope }],
            None => seq![],
        }
    }

    /// Asks for the summaries of the repositories that a terminal works in.
    pub fn refresh_terminal_repository_git_summary(&mut self, terminal_id: Id)
        ensures
            Self::requests(*old(self), *final(self), old(self).inspects_terminal(terminal_id)),
    {
        assert(self.effects@ =~= old(self).effects@ + Seq::<Effect>::empty());
        let at: usize = match find_terminal(&self.session.terminals, terminal_id) {
            Some(at) => at,
            None => {
                return ;
            },
        };
        let workspace_id: Id = self.session.terminals[at].workspace_id;
        if find_workspace(&self.workspaces, workspace_id).is_none() {
            return ;
        }
        let scope = match (
            self.session.terminals[at].task_id,
            self.session.terminals[at].repository_id,
        ) {
            (Some(task_id), Some(repository_id)) => GitScope::TaskRepository {
                task_id,
                repository_id,
            },
            (Some(task_id), None) => GitScope::Task { task_id },
            (None, Some(repository_id)) => GitScope::Repository { workspace_id, repository_id },
            (None, None) => GitScope::Project { workspace_id },
        };
        self.emit(Effect::InspectRepositories { scope });
    }
}

// ---------------------------------------------------------------------------
// Reads
// ---------------------------------------------------------------------------
/// What one repository shows in the navigation.
#[derive(Debug)]
pub struct GitDetails {
    pub branch: Option<String>,
    pub additions: u64,
    pub deletions: u64,
    pub loading: bool,
}

/// The branch on disk, else the one on record; the counted lines; and whether a
/// first read is under way.
pub open spec fn git_details(
    git: GitSummaries,
    path: Seq<char>,
    fallback: Option<Seq<char>>,
    details: GitDetails,
) -> bool {
    if git.summaries@.dom().contains(components(path)) {
        let summary = git.summaries@[components(path)];
        &&& text_of(details.branch) == if summary.branch is Some {
            text_of(summary.branch)
        } else {
            fallback
        }
        &&& details.additions == summary.additions
        &&& details.deletions == summary.deletions
        &&& !details.loading
    } else {
        &&& text_of(details.branch) == fallback
        &&& details.additions == 0
        &&& details.deletions == 0
        &&& details.loading == (git.requests@.contains(components(path)) || git.save_requests@.dom().contains(
            components(path),
        ))
    }
}

/// A summary that was read, or nothing where it could not be.
#[derive(Debug)]
pub struct GitSummaryResult {
    pub path: String,
    pub summary: Option<RepositoryGitSummary>,
}

impl BlackholesApp {
    /// What a repository shows in the navigation.
    pub fn repository_git_details(&self, path: &str, fallback: Option<&str>) -> (result: GitDetails)
        ensures
            git_details(
                self.git,
                path@,
                match fallback {
                    Some(branch) => Some(branch@),
                    None => None,
                },
                result,
            ),
    {
        let fallback_branch: Option<String> = match fallback {
            Some(branch) => Some(branch.to_string()),
            None => None,
        };
        match self.git.summaries.get(path) {
            Some(summary) => {
                let branch = match &summary.branch {
                    Some(branch) => Some(branch.clone()),
                    None => fallback_branch,
                };
                GitDetails {
                    branch,
                    additions: summary.additions,
                    deletions: summary.deletions,
                    loading: false,
                }
            },
            None => {
                let loading: bool = self.git.requests.contains(path)
                    || self.git.save_requests.contains_key(path);
                GitDetails { branch: fallback_branch, additions: 0, deletions: 0, loading }
            },
        }
    }

    /// `after` is `before` with a summary asked for: a read starts, or the read under
    /// way is followed by another one.
    pub open spec fn asks_for_summary(before: Self, after: Self, path: String) -> bool {
        &&& before.git.requests@.contains(components(path@)) ==> {
            &&& after.git.requests == before.git.requests
            &&& after.git.refresh_pending@ == before.git.refresh_pending@.insert(
                components(path@),
            )
            &&& after.effects == before.effects
        }
        &&& !before.git.requests@.contains(components(path@)) ==> {
            &&& after.git.requests@ == before.git.requests@.insert(components(path@))
            &&& after.git.refresh_pending == before.git.refresh_pending
            &&& after.effects@ == before.effects@.push(Effect::ReadGitSummary { path })
        }
        &&& after == (BlackholesApp {
            git: GitSummaries {
                requests: after.git.requests,
                refresh_pending: after.git.refresh_pending,
                ..before.git
            },
            effects: after.effects,
            ..before
        })
    }

    /// Asks for a summary.
    pub fn request_repository_git_summary(&mut self, path: String)
        ensures
            Self::asks_for_summary(*old(self), *final(self), path),
    {
        if self.git.requests.contains(path.as_str()) {
            let _ = self.git.refresh_pending.insert(path);
        } else {
            let _ = self.git.requests.insert(path.clone());
            self.effects.push(Effect::ReadGitSummary { path });
        }
    }

    /// `after` is `before` with a read ended: what it gave is kept, and where
    /// another one was asked for meanwhile the path is looked at again.
    pub open spec fn takes_summary(before: Self, after: Self, result: GitSummaryResult) -> bool {
        let path = result.path@;
        &&& after.git.summaries@ == match result.summary {
            Some(summary) => before.git.summaries@.insert(components(path), summary),
            None => before.git.summaries@,
        }
        &&& after.git.requests@ == before.git.requests@.remove(components(path))
        &&& after.git.refresh_pending@ == before.git.refresh_pending@.remove(components(path))
        &&& after.effects@ == before.effects@ + (if before.git.refresh_pending@.contains(components(path)) {
            seq![Effect::InspectPath { path: result.path }, Effect::Redraw]
        } else {
            seq![Effect::Redraw]
        })
        &&& after == (BlackholesApp {
            git: GitSummaries {
                summaries: after.git.summaries,
                requests: after.git.requests,
                refresh_pending: after.git.refresh_pending,
                ..before.git
            },
            effects: after.effects,
            ..before
        })
    }

    /// A read ended.
    pub fn finish_repository_git_summary(&mut self, result: GitSummaryResult)
        ensures
            Self::takes_summary(*old(self), *final(self), result),
    {
        let GitSummaryResult { path, summary } = result;
        let _ = self.git.requests.remove(path.as_str());
        if let Some(summary) = summary {
            self.git.summaries.insert(path.clone(), summary);
        }
        let again: bool = self.git.refresh_pending.remove(path.as_str());
        if again {
            self.emit(Effect::InspectPath { path });
        }
        self.notify();
        assert(self.effects@ =~= old(self).effects@ + (if again {
            seq![Effect::InspectPath { path: result.path }, Effect::Redraw]
        } else {
            seq![Effect::Redraw]
        }));
    }
}

// ---------------------------------------------------------------------------
// Reads after a file was saved
// ---------------------------------------------------------------------------
impl BlackholesApp {
    /// `after` is `before` with a read asked for after a save. A read that is
    /// under way for another reason is followed by a last one, so that no older
    /// result stands in the end.
    pub open spec fn refreshes_saved(before: Self, after: Self, path: String) -> bool {
        let request_id = Self::next(before.git.next_save_request_id);
        &&& after.git.next_save_request_id == request_id
        &&& after.git.save_requests@ == before.git.save_requests@.insert(components(path@), request_id)
        &&& if before.git.requests@.contains(components(path@)) {
            after.git.refresh_pending@ == before.git.refresh_pending@.insert(components(path@))
        } else {
            after.git.refresh_pending == before.git.refresh_pending
        }
        &&& after.effects@ == before.effects@ + seq![
            Effect::ReadSavedGitSummary { path, request_id },
        ]
        &&& after == (BlackholesApp {
            git: GitSummaries {
                next_save_request_id: request_id,
                save_requests: after.git.save_requests,
                refresh_pending: after.git.refresh_pending,
                ..before.git
            },
            effects: after.effects,
            ..before
        })
    }

    /// Asks for the summary of a repository in which a file was saved.
    pub fn refresh_saved_repository_git_summary(&mut self, path: String)
        ensures
            Self::refreshes_saved(*old(self), *final(self), path),
    {
        self.git.next_save_request_id = self.git.next_save_request_id.wrapping_add(1);
        let request_id: u64 = self.git.next_save_request_id;
        self.git.save_requests.insert(path.clone(), request_id);
        if self.git.requests.contains(path.as_str()) {
            let _ = self.git.refresh_pending.insert(path.clone());
        }
        self.emit(Effect::ReadSavedGitSummary { path, request_id });
    }

    /// `after` is `before` with a read after a save ended. It counts only where
    /// no later save asked for another one.
    pub open spec fn takes_saved_summary(
        before: Self,
        after: Self,
        request_id: u64,
        result: GitSummaryResult,
    ) -> bool {
        let path = result.path@;
        if before.git.save_requests@.dom().contains(components(path)) && before.git.save_requests@[components(path)]
            == request_id {
            &&& after.git.save_requests@ == before.git.save_requests@.remove(components(path))
            &&& match result.summary {
                Some(summary) => {
                    &&& after.git.summaries@ == before.git.summaries@.insert(components(path), summary)
                    &&& after.effects@ == before.effects@ + seq![Effect::Redraw]
                },
                None => {
                    &&& after.git.summaries == before.git.summaries
                    &&& after.effects == before.effects
                },
            }
            &&& after == (BlackholesApp {
                git: GitSummaries {
                    save_requests: after.git.save_requests,
                    summaries: after.git.summaries,
                    ..before.git
                },
                effects: after.effects,
                ..before
            })
        } else {
            after == before
        }
    }

    /// A read after a save ended.
    pub fn finish_saved_repository_git_summary(
        &mut self,
        request_id: u64,
        result: GitSummaryResult,
    )
        ensures
            Self::takes_saved_summary(*old(self), *final(self), request_id, result),
    {
        let GitSummaryResult { path, summary } = result;
        let current: bool = match self.git.save_requests.get(path.as_str()) {
            Some(latest) => *latest == request_id,
            None => false,
        };
        if !current {
            return ;
        }
        self.git.save_requests.remove(path.as_str());
        if let Some(summary) = summary {
            self.git.summaries.insert(path, summary);
            self.notify();
        }
    }

    /// Forgets everything about a worktree that is gone.
    pub(crate) fn forget_worktree(&mut self, path: &str)
        ensures
            final(self).git.summaries@ == old(self).git.summaries@.remove(components(path@)),
            final(self).git.requests@ == old(self).git.requests@.remove(components(path@)),
            final(self).git.refresh_pending@ == old(self).git.refresh_pending@.remove(components(path@)),
            final(self).git.save_requests@ == old(self).git.save_requests@.remove(components(path@)),
            *final(self) == (BlackholesApp {
                git: GitSummaries {
                    next_save_request_id: old(self).git.next_save_request_id,
                    ..final(self).git
                },
                ..*old(self)
            }),
    {
        self.git.summaries.remove(path);
        let _ = self.git.requests.remove(path);
        let _ = self.git.refresh_pending.remove(path);
        self.git.save_requests.remove(path);
    }
}

// ---------------------------------------------------------------------------
// Rows
// ---------------------------------------------------------------------------
/// What stands behind the name of a repository in its row. While the first read
/// is under way a placeholder stands for the counts.
#[derive(Debug)]
pub struct RepositoryMarks {
    pub branch: Option<String>,
    pub placeholder: bool,
    pub added: Option<String>,
    pub deleted: Option<String>,
}

/// A count of lines with its sign, nothing where there are none or they are not
/// known yet.
pub open spec fn count_mark(sign: Seq<char>, count: u64, loading: bool) -> Option<Seq<char>> {
    if loading || count == 0 {
        None
    } else {
        Some(sign + decimal(count as nat))
    }
}

fn mark_count(sign: &str, count: u64, loading: bool) -> (result: Option<String>)
    ensures
        text_of(result) == count_mark(sign@, count, loading),
{
    if loading || count == 0 {
        None
    } else {
        Some(join2(sign, decimal_text(count).as_str()))
    }
}

impl GitDetails {
    /// What stands behind the name of the repository.
    pub fn repository_tree_row(&self) -> (result: RepositoryMarks)
        ensures
            text_of(result.branch) == match self.branch {
                Some(branch) if branch@.len() > 0 => Some(branch@),
                _ => None,
            },
            result.placeholder == self.loading,
            text_of(result.added) == count_mark("+"@, self.additions, self.loading),
            text_of(result.deleted) == count_mark("−"@, self.deletions, self.loading),
    {
        let branch: Option<String> = match &self.branch {
            Some(branch) => if branch.as_str().unicode_len() > 0 {
                Some(branch.clone())
            } else {
                None
            },
            None => None,
        };
        RepositoryMarks {
            branch,
            placeholder: self.loading,
            added: mark_count("+", self.additions, self.loading),
            deleted: mark_count("−", self.deletions, self.loading),
        }
    }
}

/// A read that was under way when a file was saved is not the last one: once it
/// ends, the path is looked at again.
pub proof fn law_read_again_after_save(
    before: BlackholesApp,
    saved: BlackholesApp,
    after: BlackholesApp,
    path: String,
    result: GitSummaryResult,
)
    requires
        BlackholesApp::refreshes_saved(before, saved, path),
        before.git.requests@.contains(components(path@)),
        components(result.path@) == components(path@),
        BlackholesApp::takes_summary(saved, after, result),
    ensures
        after.effects@.contains(Effect::InspectPath { path: result.path }),
{
    assert(after.effects@[saved.effects@.len() as int] == (Effect::InspectPath {
        path: result.path,
    }));
}

/// What was read after a save does not count once the same repository was saved
/// to again.
pub proof fn law_older_save_ignored(
    before: BlackholesApp,
    first: BlackholesApp,
    second: BlackholesApp,
    after: BlackholesApp,
    path: String,
    result: GitSummaryResult,
)
    requires
        BlackholesApp::refreshes_saved(before, first, path),
        BlackholesApp::refreshes_saved(first, second, path),
        components(result.path@) == components(path@),
        BlackholesApp::takes_saved_summary(
            second,
            after,
            first.git.next_save_request_id,
            result,
        ),
    ensures
        after == second,
{
}

/// A repository is read once at a time, and what is asked for while it is read is read
/// afterwards: as soon as the read ends the path is looked at again.
pub proof fn law_summary_read_once(
    before: BlackholesApp,
    first: BlackholesApp,
    second: BlackholesApp,
    after: BlackholesApp,
    path: String,
    result: GitSummaryResult,
)
    requires
        BlackholesApp::asks_for_summary(before, first, path),
        BlackholesApp::asks_for_summary(first, second, path),
        components(result.path@) == components(path@),
        BlackholesApp::takes_summary(second, after, result),
    ensures
        !before.git.requests@.contains(components(path@)) ==> first.effects@ == before.effects@.push(
            Effect::ReadGitSummary { path },
        ),
        second.effects@ == first.effects@,
        after.effects@[second.effects@.len() as int] == (Effect::InspectPath { path: result.path }),
        !after.git.requests@.contains(components(path@)),
        !after.git.refresh_pending@.contains(components(path@)),
{
}

/// What was read of a repository is what its row shows: the branch on disk before the
/// one on record, and the lines that were counted. Rows of other repositories stay.
pub proof fn law_summary_shown(
    before: BlackholesApp,
    after: BlackholesApp,
    result: GitSummaryResult,
    path: Seq<char>,
    fallback: Option<Seq<char>>,
    was: GitDetails,
    shown: GitDetails,
)
    requires
        BlackholesApp::takes_summary(before, after, result),
        git_details(before.git, path, fallback, was),
        git_details(after.git, path, fallback, shown),
    ensures
        (components(path) == components(result.path@) && result.summary is Some) ==> {
            &&& shown.additions == result.summary->0.additions
            &&& shown.deletions == result.summary->0.deletions
            &&& !shown.loading
            &&& text_of(shown.branch) == if result.summary->0.branch is Some {
                text_of(result.summary->0.branch)
            } else {
                fallback
            }
        },
        components(path) != components(result.path@) || result.summary is None
            ==> shown.additions == was.additions && shown.deletions == was.deletions && text_of(
            shown.branch,
        ) == text_of(was.branch),
        components(path) != components(result.path@) ==> shown.loading == was.loading,
{
}

/// What was read after the latest save is what the row shows.
pub proof fn law_saved_summary_shown(
    before: BlackholesApp,
    saved: BlackholesApp,
    after: BlackholesApp,
    path: String,
    result: GitSummaryResult,
    fallback: Option<Seq<char>>,
    shown: GitDetails,
)
    requires
        BlackholesApp::refreshes_saved(before, saved, path),
        components(result.path@) == components(path@),
        BlackholesApp::takes_saved_summary(
            saved,
            after,
            saved.git.next_save_request_id,
            result,
        ),
        result.summary is Some,
        git_details(after.git, path@, fallback, shown),
    ensures
        saved.effects@.last() == (Effect::ReadSavedGitSummary {
            path,
            request_id: saved.git.next_save_request_id,
        }),
        shown.additions == result.summary->0.additions,
        shown.deletions == result.summary->0.deletions,
        !shown.loading,
        after.effects@.last() == Effect::Redraw,
{
}

/// Everything that is expanded is looked at.
pub proof fn law_expanded_inspected(app: BlackholesApp, id: Id)
    ensures
        app.session.expanded_workspace_ids@.contains(id) ==> app.inspects_expanded().contains(
            Effect::InspectRepositories { scope: GitScope::Project { workspace_id: id } },
        ),
        app.session.expanded_task_ids@.contains(id) ==> app.inspects_expanded().contains(
            Effect::InspectRepositories { scope: GitScope::Task { task_id: id } },
        ),
        app.inspects_expanded().len() == app.session.expanded_workspace_ids@.len()
            + app.session.expanded_task_ids@.len(),
{
    let projects = app.session.expanded_workspace_ids@;
    let tasks = app.session.expanded_task_ids@;
    if projects.contains(id) {
        let i = choose|i: int| 0 <= i < projects.len() && projects[i] == id;
        assert(app.inspects_expanded()[i] == (Effect::InspectRepositories {
            scope: GitScope::Project { workspace_id: id },
        }));
    }
    if tasks.contains(id) {
        let i = choose|i: int| 0 <= i < tasks.len() && tasks[i] == id;
        assert(app.inspects_expanded()[projects.len() + i] == (Effect::InspectRepositories {
            scope: GitScope::Task { task_id: id },
        }));
    }
}

/// A terminal works in its repository, else in all of its task, else in all of its
/// project; where it stands in a task, in the worktrees of the task.
pub proof fn law_terminal_scope(app: BlackholesApp, terminal_id: Id, at: int, project: int)
    requires
        crate::terminals::stands_at(app.session.terminals@, terminal_id, at),
        0 <= project < app.workspaces@.len(),
        app.workspaces@[project].id == app.session.terminals@[at].workspace_id,
    ensures
        ({
            let terminal = app.session.terminals@[at];
            let scope = app.terminal_scope(terminal_id);
            &&& scope is Some
            &&& terminal.task_id is None && terminal.repository_id is None ==> scope->0 == (
            GitScope::Project { workspace_id: terminal.workspace_id })
            &&& terminal.task_id is Some && terminal.repository_id is None ==> scope->0 == (GitScope::Task { task_id: terminal.task_id->0 })
            &&& terminal.repository_id is Some && terminal.task_id is None ==> scope->0 == (
            GitScope::Repository {
                workspace_id: terminal.workspace_id,
                repository_id: terminal.repository_id->0,
            })
            &&& terminal.repository_id is Some && terminal.task_id is Some ==> scope->0 == (
            GitScope::TaskRepository {
                task_id: terminal.task_id->0,
                repository_id: terminal.repository_id->0,
            })
            &&& app.inspects_terminal(terminal_id) == seq![
                Effect::InspectRepositories { scope: scope->0 },
            ]
        }),
{
    crate::search::lemma_first_where(
        app.session.terminals@,
        crate::model::terminal_is(terminal_id),
        0,
    );
    assert(crate::model::terminal_is(terminal_id)(app.session.terminals@[at]));
    let workspace_id = app.session.terminals@[at].workspace_id;
    crate::search::lemma_first_where(app.workspaces@, crate::model::workspace_is(workspace_id), 0);
    assert(crate::model::workspace_is(workspace_id)(app.workspaces@[project]));
}

/// The paths of a project are those of its repositories, the paths of a task those of
/// its worktrees, all of them.
pub proof fn law_scope_paths(app: BlackholesApp, project: int, task: int)
    requires
        0 <= project < app.workspaces@.len(),
        forall|i: int|
            0 <= i < project ==> (#[trigger] app.workspaces@[i]).id != app.workspaces@[project].id,
        0 <= task < app.tasks@.len(),
        forall|i: int| 0 <= i < task ==> (#[trigger] app.tasks@[i]).id != app.tasks@[task].id,
    ensures
        ({
            let paths = scope_paths(
                app,
                GitScope::Project { workspace_id: app.workspaces@[project].id },
            );
            &&& paths.len() == app.workspaces@[project].repositories@.len()
            &&& forall|i: int|
                0 <= i < paths.len() ==> #[trigger] paths[i]
                    == app.workspaces@[project].repositories@[i].path@
        }),
        ({
            let paths = scope_paths(app, GitScope::Task { task_id: app.tasks@[task].id });
            &&& paths.len() == app.tasks@[task].repositories@.len()
            &&& forall|i: int|
                0 <= i < paths.len() ==> #[trigger] paths[i]
                    == app.tasks@[task].repositories@[i].worktree_path@
        }),
{
    let workspace_id = app.workspaces@[project].id;
    crate::search::lemma_first_where(app.workspaces@, crate::model::workspace_is(workspace_id), 0);
    assert(crate::model::workspace_is(workspace_id)(app.workspaces@[project]));
    let task_id = app.tasks@[task].id;
    crate::search::lemma_first_where(app.tasks@, crate::model::task_is(task_id), 0);
    assert(crate::model::task_is(task_id)(app.tasks@[task]));
}

} // verus!
