//! Projects and tasks as they come, change and go.
use vstd::prelude::*;
use vstd::string::*;

use crate::app::{AppSession, BlackholesApp, GitSummaries};
use crate::clock::{current_time, Time};
use crate::effects::{Effect, GitScope, SurfaceTarget};
use crate::ids::{contains_id, insert_unique, with_id, Id};
use crate::model::{
    find_task, find_workspace, task_at, workspace_at, ProjectTask, Repository, TerminalDescriptor,
    Workspace, WorkspaceColor, WorkspaceLayout,
};
use crate::navigation::task_of_project;
use crate::paths::{
    components, components_of, contains_path, has_path, places, same_optional_path, same_path,
};
use crate::search::{lemma_filter_step, retain_where};
use crate::sorting::{is_name_order, order_by_name};
use crate::text::{decimal, decimal_text, join2, join3, join4};

verus! {

// ---------------------------------------------------------------------------
// New projects
// ---------------------------------------------------------------------------
/// What kept a project from being stored.
#[derive(Debug)]
pub enum StoreError {
    Note(String),
    Record(String),
}

impl BlackholesApp {
    /// The state with no operation under way.
    pub open spec fn idle(self) -> Self {
        BlackholesApp { busy: None, ..self }
    }

    /// `after` is `before` with a project added, expanded and looked at.
    pub open spec fn enrolls_project(before: Self, after: Self, workspace: Workspace) -> bool {
        &&& after.workspaces@ == before.workspaces@.push(workspace)
        &&& after.session.expanded_workspace_ids@ == with_id(
            before.session.expanded_workspace_ids@,
            workspace.id,
        )
        &&& after.effects@ == before.effects@ + seq![
            Effect::InspectRepositories { scope: GitScope::Project { workspace_id: workspace.id } },
        ]
        &&& after == (BlackholesApp {
            workspaces: after.workspaces,
            session: AppSession {
                expanded_workspace_ids: after.session.expanded_workspace_ids,
                ..before.session
            },
            effects: after.effects,
            ..before
        })
    }

    /// `after` is `before` with a project added and shown.
    pub open spec fn adds_project(before: Self, after: Self, workspace: Workspace, message: Seq<char>) -> bool {
        exists|enrolled: BlackholesApp, chosen: BlackholesApp| #[trigger]
            Self::enrolls_project(before, enrolled, workspace) && #[trigger] Self::selects_surface(
                enrolled,
                chosen,
                workspace.id,
                None,
                None,
                false,
            ) && Self::reports(chosen, after, message, false)
    }

    /// `after` is `before` with a project added, or the user told why not.
    pub open spec fn stores_project(
        before: Self,
        after: Self,
        workspace: Workspace,
        stored: Result<(), StoreError>,
        message: Seq<char>,
    ) -> bool {
        match stored {
            Ok(_) => Self::adds_project(before, after, workspace, message),
            Err(StoreError::Note(error)) => Self::reports(
                before,
                after,
                "Could not create the project note: "@ + error@,
                true,
            ),
            Err(StoreError::Record(error)) => Self::reports(
                before,
                after,
                "Could not save the project: "@ + error@,
                true,
            ),
        }
    }

    fn store_project(&mut self, workspace: Workspace, stored: Result<(), StoreError>, message: &str) -> (added:
        bool)
        ensures
            Self::stores_project(*old(self), *final(self), workspace, stored, message@),
            added == stored is Ok,
    {
        let ghost before = *self;
        let ghost wanted = workspace;
        match stored {
            Err(StoreError::Note(error)) => {
                let text = join2("Could not create the project note: ", error.as_str());
                self.set_status(text, true);
                false
            },
            Err(StoreError::Record(error)) => {
                let text = join2("Could not save the project: ", error.as_str());
                self.set_status(text, true);
                false
            },
            Ok(_) => {
                let workspace_id: Id = workspace.id;
                insert_unique(&mut self.session.expanded_workspace_ids, workspace_id);
                self.workspaces.push(workspace);
                self.request_workspace_git_summaries(workspace_id);
                let ghost enrolled = *self;
                assert(Self::enrolls_project(before, enrolled, wanted));
                self.select_target(workspace_id, None, None);
                assert(Self::selects_surface(enrolled, *self, workspace_id, None, None, false));
                self.set_status(message.to_string(), false);
                true
            },
        }
    }

    /// A project with a repository of its own was created, or could not be.
    /// `stored` is what came of writing its note and its record.
    pub fn create_empty_project(
        &mut self,
        result: Result<Workspace, String>,
        stored: Result<(), StoreError>,
    ) -> (added: bool)
        ensures
            match result {
                Ok(workspace) => added == stored is Ok && Self::stores_project(
                    *old(self),
                    *final(self),
                    workspace,
                    stored,
                    "Project created"@,
                ),
                Err(error) => !added && Self::reports(
                    *old(self),
                    *final(self),
                    "Could not create the project: "@ + error@,
                    true,
                ),
            },
    {
        match result {
            Ok(workspace) => self.store_project(workspace, stored, "Project created"),
            Err(error) => {
                let message = join2("Could not create the project: ", error.as_str());
                self.set_status(message, true);
                false
            },
        }
    }

    /// A project at the same root is known.
    pub open spec fn holds_root(&self, root_path: Option<String>) -> bool {
        exists|i: int|
            0 <= i < self.workspaces@.len() && components_of((#[trigger] self.workspaces@[i]).root_path)
                == components_of(root_path)
    }

    /// Whether a project at the same root is known.
    pub fn knows_root(&self, root_path: &Option<String>) -> (result: bool)
        ensures
            result == self.holds_root(*root_path),
    {
        let mut index: usize = 0;
        while index < self.workspaces.len()
            invariant
                index <= self.workspaces@.len(),
                forall|i: int|
                    0 <= i < index ==> components_of((#[trigger] self.workspaces@[i]).root_path)
                        != components_of(*root_path),
            decreases self.workspaces@.len() - index,
        {
            if same_optional_path(&self.workspaces[index].root_path, root_path) {
                return true;
            }
            index += 1;
        }
        false
    }

    /// `after` is `before` with a project that was made in the background added,
    /// unless one at its root is known.
    pub open spec fn finishes_workspace(
        before: Self,
        after: Self,
        result: Result<Workspace, String>,
        stored: Result<(), StoreError>,
    ) -> bool {
        match result {
            Err(error) => Self::reports(
                before.idle(),
                after,
                "Project operation failed: "@ + error@,
                true,
            ),
            Ok(workspace) => if before.holds_root(workspace.root_path) {
                Self::reports(before.idle(), after, "That project is already in Blackholes"@, true)
            } else {
                Self::stores_project(before.idle(), after, workspace, stored, "Project ready"@)
            },
        }
    }

    /// A project was made in the background. `stored` is what came of writing
    /// its note and its record, where it is new.
    pub fn finish_background_workspace(
        &mut self,
        result: Result<Workspace, String>,
        stored: Result<(), StoreError>,
    )
        ensures
            Self::finishes_workspace(*old(self), *final(self), result, stored),
    {
        self.busy = None;
        match result {
            Err(error) => {
                let message = join2("Project operation failed: ", error.as_str());
                self.set_status(message, true);
            },
            Ok(workspace) => {
                if self.knows_root(&workspace.root_path) {
                    self.set_status("That project is already in Blackholes".to_string(), true);
                    return ;
                }
                let _ = self.store_project(workspace, stored, "Project ready");
            },
        }
    }

    // -----------------------------------------------------------------------
    // The presentation of a project
    // -----------------------------------------------------------------------
    /// `after` is `before` with a project replaced.
    pub open spec fn replaces_project(before: Self, after: Self, at: int, workspace: Workspace) -> bool {
        &&& after.workspaces@ == before.workspaces@.update(at, workspace)
        &&& after == (BlackholesApp { workspaces: after.workspaces, ..before })
    }

    /// `after` is `before` with the project of an identifier replaced.
    pub open spec fn puts_project(before: Self, after: Self, workspace_id: Id, workspace: Workspace) -> bool {
        workspace_at(before.workspaces@, workspace_id) matches Some(at) && Self::replaces_project(
            before,
            after,
            at,
            workspace,
        )
    }

    /// `after` is `before` with the presentation of a project changed, or the
    /// user told why not.
    pub open spec fn presents_project(
        before: Self,
        after: Self,
        workspace_id: Id,
        workspace: Workspace,
        outcome: Result<(), String>,
        done: bool,
    ) -> bool {
        if workspace_at(before.workspaces@, workspace_id) is None {
            !done && after == before
        } else {
            exists|replaced: BlackholesApp| #[trigger]
                Self::puts_project(before, replaced, workspace_id, workspace)
                    && Self::tells_presentation(replaced, after, outcome, done)
        }
    }

    /// `after` is `before` with the outcome of storing a project told.
    pub open spec fn tells_presentation(
        before: Self,
        after: Self,
        outcome: Result<(), String>,
        done: bool,
    ) -> bool {
        match outcome {
            Ok(_) => done && Self::requests(
                BlackholesApp { status: None, ..before },
                after,
                seq![Effect::Redraw],
            ),
            Err(error) => !done && Self::reports(
                before,
                after,
                "Could not update the project: "@ + error@,
                true,
            ),
        }
    }

    /// The name, icon and colour of a project were changed. `workspace` is the
    /// project as it is now, `outcome` what came of changing and storing it.
    pub fn update_project_presentation(
        &mut self,
        workspace_id: Id,
        workspace: Workspace,
        outcome: Result<(), String>,
    ) -> (done: bool)
        ensures
            Self::presents_project(
                *old(self),
                *final(self),
                workspace_id,
                workspace,
                outcome,
                done,
            ),
    {
        let ghost before = *self;
        let ghost wanted = workspace;
        let at: usize = match find_workspace(&self.workspaces, workspace_id) {
            Some(at) => at,
            None => {
                return false;
            },
        };
        self.workspaces[at] = workspace;
        assert(self.workspaces@ =~= before.workspaces@.update(at as int, wanted));
        let ghost replaced = *self;
        assert(Self::puts_project(before, replaced, workspace_id, wanted));
        match outcome {
            Ok(value) => {
                self.status = None;
                self.notify();
                assert(Self::tells_presentation(replaced, *self, Ok(value), true));
                true
            },
            Err(error) => {
                let message = join2("Could not update the project: ", error.as_str());
                self.set_status(message, true);
                assert(Self::tells_presentation(replaced, *self, Err(error), false));
                false
            },
        }
    }
}

// ---------------------------------------------------------------------------
// The repositories of a project
// ---------------------------------------------------------------------------
/// The repository is neither known nor ignored.
pub open spec fn is_new_repository(workspace: Workspace) -> spec_fn(Repository) -> bool {
    |repository: Repository|
        !has_repository_path(workspace.repositories@, repository.path@) && !has_path(
            workspace.ignored_repository_paths@,
            components(repository.path@),
        )
}

pub open spec fn has_repository_path(repositories: Seq<Repository>, path: Seq<char>) -> bool {
    exists|i: int| 0 <= i < repositories.len() && components(
        (#[trigger] repositories[i]).path@,
    ) == components(path)
}

fn contains_repository_path(repositories: &Vec<Repository>, path: &str) -> (result: bool)
    ensures
        result == has_repository_path(repositories@, path@),
{
    let mut index: usize = 0;
    while index < repositories.len()
        invariant
            index <= repositories@.len(),
            forall|i: int|
                0 <= i < index ==> components((#[trigger] repositories@[i]).path@) != components(path@),
        decreases repositories@.len() - index,
    {
        if same_path(repositories[index].path.as_str(), path) {
            return true;
        }
        index += 1;
    }
    false
}

pub open spec fn repository_names(repositories: Seq<Repository>) -> Seq<Seq<char>> {
    repositories.map_values(|repository: Repository| repository.name@)
}

/// The repositories by name.
pub open spec fn sorted_by_name(before: Seq<Repository>, after: Seq<Repository>) -> bool {
    exists|order: Seq<usize>|
        #![trigger is_name_order(repository_names(before), order)]
        is_name_order(repository_names(before), order) && after.len() == before.len()
            && forall|k: int|
            0 <= k < after.len() ==> #[trigger] after[k] == before[order[k] as int]
}

impl Repository {
    /// A copy of the record.
    pub fn duplicate(&self) -> (result: Repository)
        ensures
            result == *self,
    {
        Repository {
            id: self.id,
            name: self.name.clone(),
            path: self.path.clone(),
            branch: crate::model::copy_text(&self.branch),
        }
    }
}

fn sort_by_name(repositories: &Vec<Repository>) -> (result: Vec<Repository>)
    ensures
        sorted_by_name(repositories@, result@),
{
    let mut names: Vec<String> = Vec::new();
    let mut index: usize = 0;
    while index < repositories.len()
        invariant
            index <= repositories@.len(),
            names@.len() == index,
            forall|i: int| 0 <= i < index ==> (#[trigger] names@[i])@ == repositories@[i].name@,
        decreases repositories@.len() - index,
    {
        names.push(repositories[index].name.clone());
        index += 1;
    }
    assert(crate::text::views(names@) =~= repository_names(repositories@));
    let order = order_by_name(&names);
    let mut result: Vec<Repository> = Vec::new();
    index = 0;
    while index < order.len()
        invariant
            is_name_order(repository_names(repositories@), order@),
            index <= order@.len(),
            result@.len() == index,
            forall|k: int|
                0 <= k < index ==> #[trigger] result@[k] == repositories@[order@[k] as int],
        decreases order@.len() - index,
    {
        assert(order@[index as int] < repository_names(repositories@).len());
        result.push(repositories[order[index]].duplicate());
        index += 1;
    }
    result
}

/// The layout of a project: its only repository may be its root.
pub open spec fn layout_of(repositories: Seq<Repository>, root_path: Seq<char>) -> WorkspaceLayout {
    if repositories.len() == 1 && components(repositories[0].path@) == components(root_path) {
        WorkspaceLayout::SingleRepository
    } else {
        WorkspaceLayout::MultiRepository
    }
}

/// A project with the new repositories among its own, by name.
pub open spec fn merged(
    before: Workspace,
    after: Workspace,
    found: Seq<Repository>,
    now: Time,
) -> bool {
    &&& sorted_by_name(before.repositories@ + found, after.repositories@)
    &&& after == (Workspace {
        repositories: after.repositories,
        layout: layout_of(after.repositories@, before.root_path->0@),
        updated_at: now,
        ..before
    })
}

/// What came of looking for repositories.
#[derive(Debug)]
pub enum RefreshOutcome {
    /// Nothing to store.
    Settled,
    /// The project changed; its record is to be written. `paths` are those of
    /// the repositories that were found.
    Merged { paths: Vec<String> },
}

pub open spec fn found_paths(found: Seq<Repository>) -> Seq<Seq<char>> {
    found.map_values(|repository: Repository| repository.path@)
}

impl BlackholesApp {
    /// `after` is `before` with the repositories that were found in the folder of
    /// a project taken in.
    pub open spec fn takes_repositories(
        before: Self,
        after: Self,
        at: int,
        discovered: Result<Vec<Repository>, String>,
        outcome: RefreshOutcome,
    ) -> bool {
        let workspace = before.workspaces@[at];
        match discovered {
            Err(error) => outcome is Settled && Self::reports(
                before,
                after,
                before.text(
                    "Could not scan project repositories"@,
                    "No se pudieron buscar repositorios del proyecto"@,
                ) + ": "@ + error@,
                true,
            ),
            Ok(repositories) => {
                let found = repositories@.filter(is_new_repository(workspace));
                if found.len() == 0 {
                    outcome is Settled && Self::reports(
                        before,
                        after,
                        before.text(
                            "No new repositories were found"@,
                            "No se encontraron repositorios nuevos"@,
                        ),
                        false,
                    )
                } else {
                    &&& outcome matches RefreshOutcome::Merged { paths } && crate::text::views(
                        paths@,
                    ) == found_paths(found)
                    &&& exists|now: Time| #[trigger]
                        merged(workspace, after.workspaces@[at], found, now)
                    &&& Self::replaces_project(before, after, at, after.workspaces@[at])
                }
            },
        }
    }

    /// `after` is `before` with the folder of a project looked through; nothing where
    /// the project is unknown. `discovered` is what is in the folder.
    pub open spec fn looks_for_repositories(
        before: Self,
        after: Self,
        workspace_id: Id,
        discovered: Result<Vec<Repository>, String>,
        outcome: RefreshOutcome,
    ) -> bool {
        match workspace_at(before.workspaces@, workspace_id) {
            None => outcome is Settled && after == before,
            Some(at) => if before.workspaces@[at].root_path is None {
                outcome is Settled && Self::reports(
                    before,
                    after,
                    before.text(
                        "This project does not have a root folder"@,
                        "Este proyecto no tiene una carpeta raíz"@,
                    ),
                    true,
                )
            } else {
                Self::takes_repositories(before, after, at, discovered, outcome)
            },
        }
    }

    /// Looks for repositories in the folder of a project.
    pub fn refresh_project_repositories(
        &mut self,
        workspace_id: Id,
        discovered: Result<Vec<Repository>, String>,
    ) -> (outcome: RefreshOutcome)
        ensures
            Self::looks_for_repositories(
                *old(self),
                *final(self),
                workspace_id,
                discovered,
                outcome,
            ),
    {
        let ghost before = *self;
        let at: usize = match find_workspace(&self.workspaces, workspace_id) {
            Some(at) => at,
            None => {
                return RefreshOutcome::Settled;
            },
        };
        let root_path = match &self.workspaces[at].root_path {
            Some(root_path) => root_path.clone(),
            None => {
                let message = self.tr(
                    "This project does not have a root folder",
                    "Este proyecto no tiene una carpeta raíz",
                ).to_string();
                self.set_status(message, true);
                return RefreshOutcome::Settled;
            },
        };
        let mut found: Vec<Repository> = match discovered {
            Ok(repositories) => repositories,
            Err(error) => {
                let message = join3(
                    self.tr(
                        "Could not scan project repositories",
                        "No se pudieron buscar repositorios del proyecto",
                    ),
                    ": ",
                    error.as_str(),
                );
                self.set_status(message, true);
                return RefreshOutcome::Settled;
            },
        };
        let known = &self.workspaces[at];
        let test = |repository: &Repository| -> (kept: bool)
            ensures
                kept == (!has_repository_path(known.repositories@, repository.path@) && !has_path(
                    known.ignored_repository_paths@,
                    components(repository.path@),
                )),
        {
            !contains_repository_path(&known.repositories, repository.path.as_str())
                && !contains_path(&known.ignored_repository_paths, repository.path.as_str())
        };
        retain_where(&mut found, Ghost(is_new_repository(*known)), test);
        if found.len() == 0 {
            let message = self.tr(
                "No new repositories were found",
                "No se encontraron repositorios nuevos",
            ).to_string();
            self.set_status(message, false);
            return RefreshOutcome::Settled;
        }
        let ghost wanted = found@;
        let mut all: Vec<Repository> = Vec::new();
        let mut paths: Vec<String> = Vec::new();
        let mut index: usize = 0;
        while index < self.workspaces[at].repositories.len()
            invariant
                at < self.workspaces@.len(),
                *self == before,
                index <= before.workspaces@[at as int].repositories@.len(),
                all@ == before.workspaces@[at as int].repositories@.take(index as int),
            decreases before.workspaces@[at as int].repositories@.len() - index,
        {
            all.push(self.workspaces[at].repositories[index].duplicate());
            index += 1;
            assert(all@ =~= before.workspaces@[at as int].repositories@.take(index as int));
        }
        let ghost own = before.workspaces@[at as int].repositories@;
        assert(own.take(index as int) =~= own);
        assert(all@ =~= own + wanted.take(0));
        index = 0;
        while index < found.len()
            invariant
                index <= found@.len(),
                found@ == wanted,
                all@ == own + wanted.take(index as int),
                paths@.len() == index,
                forall|i: int| 0 <= i < index ==> (#[trigger] paths@[i])@ == wanted[i].path@,
            decreases found@.len() - index,
        {
            all.push(found[index].duplicate());
            paths.push(found[index].path.clone());
            index += 1;
            assert(all@ =~= own + wanted.take(index as int));
        }
        assert(wanted.take(index as int) =~= wanted);
        assert(crate::text::views(paths@) =~= found_paths(wanted));
        let sorted = sort_by_name(&all);
        let single: bool = sorted.len() == 1 && same_path(
            sorted[0].path.as_str(),
            root_path.as_str(),
        );
        let now: Time = current_time();
        self.workspaces[at].repositories = sorted;
        self.workspaces[at].layout =
        if single {
            WorkspaceLayout::SingleRepository
        } else {
            WorkspaceLayout::MultiRepository
        };
        self.workspaces[at].updated_at = now;
        proof {
            assert(merged(
                before.workspaces@[at as int],
                self.workspaces@[at as int],
                wanted,
                now,
            ));
            assert(self.workspaces@ =~= before.workspaces@.update(
                at as int,
                self.workspaces@[at as int],
            ));
        }
        RefreshOutcome::Merged { paths }
    }

    /// How many repositories were added, in words.
    pub open spec fn added_message(&self, count: nat) -> Seq<char> {
        if count == 1 {
            self.text("Repository added"@, "Repositorio agregado"@)
        } else {
            decimal(count) + self.text(" repositories added"@, " repositorios agregados"@)
        }
    }

    /// The requests to look at the paths.
    pub open spec fn inspects_paths(paths: Seq<String>) -> Seq<Effect> {
        paths.map_values(|path: String| Effect::InspectPath { path })
    }

    /// The record of a project with new repositories was written, or could not
    /// be; in that case the records were read again.
    pub fn finish_project_refresh(&mut self, paths: Vec<String>, stored: Result<(), String>)
        ensures
            match stored {
                Ok(_) => exists|inspected: BlackholesApp| #[trigger]
                    Self::requests(*old(self), inspected, Self::inspects_paths(paths@))
                        && Self::reports(
                        inspected,
                        *final(self),
                        old(self).added_message(paths@.len()),
                        false,
                    ),
                Err(error) => Self::reports(
                    *old(self),
                    *final(self),
                    old(self).text(
                        "Could not save discovered repositories"@,
                        "No se pudieron guardar los repositorios encontrados"@,
                    ) + ": "@ + error@,
                    true,
                ),
            },
    {
        let ghost before = *self;
        match stored {
            Err(error) => {
                let message = join3(
                    self.tr(
                        "Could not save discovered repositories",
                        "No se pudieron guardar los repositorios encontrados",
                    ),
                    ": ",
                    error.as_str(),
                );
                self.set_status(message, true);
            },
            Ok(_) => {
                let ghost wanted = Self::inspects_paths(paths@);
                let count: usize = paths.len();
                let mut index: usize = 0;
                assert(self.effects@ =~= before.effects@ + wanted.take(0));
                while index < paths.len()
                    invariant
                        index <= paths@.len(),
                        wanted == Self::inspects_paths(paths@),
                        Self::requests(before, *self, wanted.take(index as int)),
                    decreases paths@.len() - index,
                {
                    self.emit(Effect::InspectPath { path: paths[index].clone() });
                    index += 1;
                    assert(self.effects@ =~= before.effects@ + wanted.take(index as int));
                }
                assert(wanted.take(index as int) =~= wanted);
                assert(Self::requests(before, *self, Self::inspects_paths(paths@)));
                let message = if count == 1 {
                    self.tr("Repository added", "Repositorio agregado").to_string()
                } else {
                    join2(
                        decimal_text(count as u64).as_str(),
                        self.tr(" repositories added", " repositorios agregados"),
                    )
                };
                self.set_status(message, false);
            },
        }
    }
}

// ---------------------------------------------------------------------------
// Tasks
// ---------------------------------------------------------------------------
impl BlackholesApp {
    /// The place of a new task among those of its project.
    pub open spec fn next_sort_order(&self, workspace_id: Id) -> int {
        self.tasks@.filter(task_of_project(workspace_id)).len() as int
    }

    /// The place of a new task among those of its project.
    pub fn task_sort_order(&self, workspace_id: Id) -> (result: usize)
        ensures
            result == self.next_sort_order(workspace_id),
    {
        let ghost keep = task_of_project(workspace_id);
        let mut count: usize = 0;
        let mut index: usize = 0;
        assert(self.tasks@.take(0).filter(keep) =~= Seq::<ProjectTask>::empty());
        while index < self.tasks.len()
            invariant
                keep == task_of_project(workspace_id),
                index <= self.tasks@.len(),
                count <= index,
                count == self.tasks@.take(index as int).filter(keep).len(),
            decreases self.tasks@.len() - index,
        {
            proof {
                lemma_filter_step(self.tasks@, keep, index as int);
            }
            if self.tasks[index].workspace_id == workspace_id {
                count += 1;
            }
            index += 1;
        }
        assert(self.tasks@.take(index as int) =~= self.tasks@);
        count
    }

    /// `after` is `before` with a task that the user waits for added and shown.
    pub open spec fn adds_task(before: Self, after: Self, task: ProjectTask) -> bool {
        exists|added: BlackholesApp, revealed: BlackholesApp|
            {
                &&& #[trigger] Self::appends_task(before, added, task)
                &&& #[trigger] Self::reveals(added, revealed, task.id, true)
                &&& Self::reports(revealed, after, "Task workspace ready"@, false)
            }
    }

    /// `after` is `before` with a task at the end.
    pub open spec fn appends_task(before: Self, after: Self, task: ProjectTask) -> bool {
        &&& after.tasks@ == before.tasks@.push(task)
        &&& after == (BlackholesApp { tasks: after.tasks, ..before })
    }

    /// `after` is `before` with a task that was made in the background added, or
    /// the user told why not.
    pub open spec fn finishes_task(
        before: Self,
        after: Self,
        result: Result<ProjectTask, String>,
        stored: Result<(), String>,
    ) -> bool {
        match (result, stored) {
            (Err(error), _) => Self::reports(
                before.idle(),
                after,
                "Could not create the task: "@ + error@,
                true,
            ),
            (Ok(_), Err(error)) => Self::reports(
                before.idle(),
                after,
                "Could not save the task: "@ + error@,
                true,
            ),
            (Ok(task), Ok(_)) => Self::adds_task(before.idle(), after, task),
        }
    }

    /// A task was made in the background; its place among the tasks was set
    /// before its record was written. `stored` is what came of that.
    pub fn finish_background_task(
        &mut self,
        result: Result<ProjectTask, String>,
        stored: Result<(), String>,
    )
        ensures
            Self::finishes_task(*old(self), *final(self), result, stored),
    {
        self.busy = None;
        let ghost idle = *self;
        let task = match result {
            Ok(task) => task,
            Err(error) => {
                let message = join2("Could not create the task: ", error.as_str());
                self.set_status(message, true);
                return ;
            },
        };
        if let Err(error) = stored {
            let message = join2("Could not save the task: ", error.as_str());
            self.set_status(message, true);
            return ;
        }
        let ghost wanted = task;
        let task_id: Id = task.id;
        self.tasks.push(task);
        let ghost added = *self;
        assert(Self::appends_task(idle, added, wanted));
        self.reveal_new_task(task_id, true);
        assert(Self::reveals(added, *self, wanted.id, true));
        self.set_status("Task workspace ready".to_string(), false);
    }

    /// `after` is `before` with a task replaced, where it is known.
    pub open spec fn replaces_task(before: Self, after: Self, task: ProjectTask) -> bool {
        &&& after.tasks@ == match task_at(before.tasks@, task.id) {
            Some(at) => before.tasks@.update(at, task),
            None => before.tasks@,
        }
        &&& after == (BlackholesApp { tasks: after.tasks, ..before })
    }

    pub(crate) fn replace_task(&mut self, task: ProjectTask)
        ensures
            Self::replaces_task(*old(self), *final(self), task),
    {
        let ghost before = *self;
        let ghost wanted = task;
        if let Some(at) = find_task(&self.tasks, task.id) {
            self.tasks[at] = task;
            assert(self.tasks@ =~= before.tasks@.update(at as int, wanted));
        }
    }

    /// `after` is `before` with a changed task taken in, or the user told why not.
    pub open spec fn finishes_update(
        before: Self,
        after: Self,
        result: Result<ProjectTask, String>,
        stored: Result<(), String>,
    ) -> bool {
        match (result, stored) {
            (Err(error), _) => Self::reports(
                before.idle(),
                after,
                "Could not update the task: "@ + error@,
                true,
            ),
            (Ok(_), Err(error)) => Self::reports(
                before.idle(),
                after,
                "Could not save the task: "@ + error@,
                true,
            ),
            (Ok(task), Ok(_)) => exists|replaced: BlackholesApp, inspected: BlackholesApp|
                {
                    &&& #[trigger] Self::replaces_task(before.idle(), replaced, task)
                    &&& #[trigger] Self::requests(
                        replaced,
                        inspected,
                        seq![
                            Effect::InspectRepositories {
                                scope: GitScope::Task { task_id: task.id },
                            },
                        ],
                    )
                    &&& Self::reports(inspected, after, "Task updated"@, false)
                },
        }
    }

    /// A task was changed in the background. `stored` is what came of writing
    /// its record.
    pub fn finish_updated_task(
        &mut self,
        result: Result<ProjectTask, String>,
        stored: Result<(), String>,
    )
        ensures
            Self::finishes_update(*old(self), *final(self), result, stored),
    {
        self.busy = None;
        let ghost idle = *self;
        let task = match result {
            Ok(task) => task,
            Err(error) => {
                let message = join2("Could not update the task: ", error.as_str());
                self.set_status(message, true);
                return ;
            },
        };
        if let Err(error) = stored {
            let message = join2("Could not save the task: ", error.as_str());
            self.set_status(message, true);
            return ;
        }
        let ghost wanted = task;
        let task_id: Id = task.id;
        self.replace_task(task);
        let ghost replaced = *self;
        assert(Self::replaces_task(idle, replaced, wanted));
        self.request_task_git_summaries(task_id);
        assert(Self::requests(
            replaced,
            *self,
            seq![Effect::InspectRepositories { scope: GitScope::Task { task_id } }],
        ));
        self.set_status("Task updated".to_string(), false);
    }
}

// ---------------------------------------------------------------------------
// Closing terminals
// ---------------------------------------------------------------------------
pub open spec fn terminal_ids_of(terminals: Seq<TerminalDescriptor>) -> Seq<Id> {
    terminals.map_values(|terminal: TerminalDescriptor| terminal.id)
}

pub open spec fn terminal_of_task(task_id: Id) -> spec_fn(TerminalDescriptor) -> bool {
    |terminal: TerminalDescriptor| terminal.task_id == Some(task_id)
}

pub open spec fn terminal_of_project(workspace_id: Id) -> spec_fn(TerminalDescriptor) -> bool {
    |terminal: TerminalDescriptor| terminal.workspace_id == workspace_id
}

/// The terminal is of the task, in one of the repositories that it lost.
pub open spec fn orphaned_by(task_id: Id, detached: Seq<Id>) -> spec_fn(TerminalDescriptor) -> bool {
    |terminal: TerminalDescriptor|
        terminal.task_id == Some(task_id) && (terminal.repository_id matches Some(repository_id)
            && detached.contains(repository_id))
}

pub(crate) fn ids_where<F: Fn(&TerminalDescriptor) -> bool>(
    terminals: &Vec<TerminalDescriptor>,
    Ghost(keep): Ghost<spec_fn(TerminalDescriptor) -> bool>,
    test: F,
) -> (result: Vec<Id>)
    requires
        forall|item: &TerminalDescriptor| #[trigger] test.requires((item,)),
        forall|item: &TerminalDescriptor, kept: bool| #[trigger]
            test.ensures((item,), kept) ==> kept == keep(*item),
    ensures
        result@ == terminal_ids_of(terminals@.filter(keep)),
{
    let mut result: Vec<Id> = Vec::new();
    let mut index: usize = 0;
    assert(terminals@.take(0).filter(keep) =~= Seq::<TerminalDescriptor>::empty());
    assert(result@ =~= terminal_ids_of(terminals@.take(0).filter(keep)));
    while index < terminals.len()
        invariant
            forall|item: &TerminalDescriptor| #[trigger] test.requires((item,)),
            forall|item: &TerminalDescriptor, kept: bool| #[trigger]
                test.ensures((item,), kept) ==> kept == keep(*item),
            index <= terminals@.len(),
            result@ == terminal_ids_of(terminals@.take(index as int).filter(keep)),
        decreases terminals@.len() - index,
    {
        proof {
            lemma_filter_step(terminals@, keep, index as int);
        }
        let terminal = &terminals[index];
        if test(terminal) {
            result.push(terminal.id);
        }
        index += 1;
        assert(result@ =~= terminal_ids_of(terminals@.take(index as int).filter(keep)));
    }
    assert(terminals@.take(index as int) =~= terminals@);
    result
}

impl BlackholesApp {
    /// `after` is `before` with the terminals closed, one after the other.
    pub open spec fn closes_all(before: Self, after: Self, terminals: Seq<Id>, refresh_git: bool) -> bool
        decreases terminals.len(),
    {
        if terminals.len() == 0 {
            after == before
        } else {
            exists|middle: BlackholesApp|
                Self::closes_all(before, middle, terminals.drop_last(), refresh_git) && #[trigger]
                Self::closes_terminal(middle, after, terminals.last(), refresh_git)
        }
    }

    pub(crate) fn close_all(&mut self, terminals: &Vec<Id>, refresh_git: bool)
        ensures
            Self::closes_all(*old(self), *final(self), terminals@, refresh_git),
    {
        let ghost before = *self;
        let mut index: usize = 0;
        while index < terminals.len()
            invariant
                index <= terminals@.len(),
                Self::closes_all(before, *self, terminals@.take(index as int), refresh_git),
            decreases terminals@.len() - index,
        {
            let ghost middle = *self;
            self.close_terminal_internal(terminals[index], refresh_git);
            proof {
                let done = terminals@.take(index + 1);
                assert(done.drop_last() =~= terminals@.take(index as int));
                assert(done.last() == terminals@[index as int]);
                assert(Self::closes_terminal(middle, *self, done.last(), refresh_git));
            }
            index += 1;
        }
        assert(terminals@.take(index as int) =~= terminals@);
    }

    /// `after` is `before` with nothing known of the worktrees any more.
    pub open spec fn forgets_worktrees(before: Self, after: Self, paths: Set<Seq<Seq<char>>>) -> bool {
        &&& after.git.summaries@ == before.git.summaries@.remove_keys(paths)
        &&& after.git.requests@ == before.git.requests@.difference(paths)
        &&& after.git.refresh_pending@ == before.git.refresh_pending@.difference(paths)
        &&& after.git.save_requests@ == before.git.save_requests@.remove_keys(paths)
        &&& after == (BlackholesApp {
            git: GitSummaries {
                next_save_request_id: before.git.next_save_request_id,
                ..after.git
            },
            ..before
        })
    }

    pub(crate) fn forget_worktrees(&mut self, paths: &Vec<String>)
        ensures
            Self::forgets_worktrees(
                *old(self),
                *final(self),
                places(crate::text::views(paths@)).to_set(),
            ),
    {
        let ghost before = *self;
        let ghost all = places(crate::text::views(paths@));
        let mut index: usize = 0;
        proof {
            let none = all.take(0).to_set();
            assert(none =~= Set::<Seq<Seq<char>>>::empty());
            assert(before.git.summaries@.remove_keys(none) =~= before.git.summaries@);
            assert(before.git.save_requests@.remove_keys(none) =~= before.git.save_requests@);
            assert(before.git.requests@.difference(none) =~= before.git.requests@);
            assert(before.git.refresh_pending@.difference(none) =~= before.git.refresh_pending@);
        }
        while index < paths.len()
            invariant
                index <= paths@.len(),
                all == places(crate::text::views(paths@)),
                Self::forgets_worktrees(before, *self, all.take(index as int).to_set()),
            decreases paths@.len() - index,
        {
            let ghost middle = *self;
            self.forget_worktree(paths[index].as_str());
            proof {
                let fewer = all.take(index as int).to_set();
                let more = all.take(index + 1).to_set();
                let path = components(paths@[index as int]@);
                assert(all.take(index + 1) =~= all.take(index as int).push(path));
                assert(more =~= fewer.insert(path)) by {
                    assert forall|p: Seq<Seq<char>>| more.contains(p) <==> fewer.insert(path).contains(
                        p,
                    ) by {
                        let longer = all.take(index + 1);
                        let shorter = all.take(index as int);
                        if longer.contains(p) {
                            let i = choose|i: int| 0 <= i < longer.len() && longer[i] == p;
                            if i < index {
                                assert(shorter[i] == p);
                            }
                        }
                        if shorter.contains(p) {
                            let i = choose|i: int| 0 <= i < shorter.len() && shorter[i] == p;
                            assert(longer[i] == p);
                        }
                        assert(longer[index as int] == path);
                    }
                }
                assert(before.git.summaries@.remove_keys(fewer).remove(path)
                    =~= before.git.summaries@.remove_keys(more));
                assert(before.git.save_requests@.remove_keys(fewer).remove(path)
                    =~= before.git.save_requests@.remove_keys(more));
                assert(before.git.requests@.difference(fewer).remove(path)
                    =~= before.git.requests@.difference(more));
                assert(before.git.refresh_pending@.difference(fewer).remove(path)
                    =~= before.git.refresh_pending@.difference(more));
            }
            index += 1;
        }
        assert(all.take(index as int) =~= all);
    }
}

// ---------------------------------------------------------------------------
// Repositories taken from a task
// ---------------------------------------------------------------------------
/// A repository that a task lost.
#[derive(Debug)]
pub struct RemovedTaskRepository {
    pub repository_id: Id,
    pub worktree_path: String,
    pub branch_deleted: bool,
}

pub open spec fn detached_ids(removed: Seq<RemovedTaskRepository>) -> Seq<Id> {
    removed.map_values(|repository: RemovedTaskRepository| repository.repository_id)
}

pub open spec fn detached_paths(removed: Seq<RemovedTaskRepository>) -> Seq<Seq<char>> {
    removed.map_values(|repository: RemovedTaskRepository| repository.worktree_path@)
}

pub open spec fn lost_branch() -> spec_fn(RemovedTaskRepository) -> bool {
    |repository: RemovedTaskRepository| repository.branch_deleted
}

/// What is told of the repositories that a task lost.
pub open spec fn detached_message(removed: Seq<RemovedTaskRepository>) -> Seq<char> {
    let branches = removed.filter(lost_branch()).len();
    decimal(removed.len()) + if branches == 0 {
        " worktree(s) removed; Git branches were preserved"@
    } else {
        " worktree(s) removed; "@ + decimal(branches) + " branch(es) deleted"@
    }
}

fn count_lost_branches(removed: &Vec<RemovedTaskRepository>) -> (result: usize)
    ensures
        result == removed@.filter(lost_branch()).len(),
{
    let ghost keep = lost_branch();
    let mut count: usize = 0;
    let mut index: usize = 0;
    assert(removed@.take(0).filter(keep) =~= Seq::<RemovedTaskRepository>::empty());
    while index < removed.len()
        invariant
            keep == lost_branch(),
            index <= removed@.len(),
            count <= index,
            count == removed@.take(index as int).filter(keep).len(),
        decreases removed@.len() - index,
    {
        proof {
            lemma_filter_step(removed@, keep, index as int);
        }
        if removed[index].branch_deleted {
            count += 1;
        }
        index += 1;
    }
    assert(removed@.take(index as int) =~= removed@);
    count
}

impl BlackholesApp {
    /// `after` is `before` off a repository that the task lost.
    pub open spec fn leaves_detached(before: Self, after: Self, task_id: Id, detached: Seq<Id>) -> bool {
        after == if before.session.selected_task_id == Some(task_id) && (
        before.session.selected_repository_id matches Some(repository_id) && detached.contains(
            repository_id,
        )) {
            BlackholesApp {
                session: AppSession { selected_repository_id: None, ..before.session },
                ..before
            }
        } else {
            before
        }
    }

    /// `after` is `before` with a task that lost repositories taken in: nothing
    /// is known of their worktrees, and the terminals in them are closed.
    pub open spec fn detaches(
        before: Self,
        after: Self,
        task: ProjectTask,
        removed: Seq<RemovedTaskRepository>,
    ) -> bool {
        exists|
            forgotten: BlackholesApp,
            replaced: BlackholesApp,
            closed: BlackholesApp,
            left: BlackholesApp,
            saved: BlackholesApp,
            told: BlackholesApp,
        |
            {
                &&& #[trigger] Self::forgets_worktrees(
                    before,
                    forgotten,
                    places(detached_paths(removed)).to_set(),
                )
                &&& #[trigger] Self::replaces_task(forgotten, replaced, task)
                &&& #[trigger] Self::closes_all(
                    replaced,
                    closed,
                    terminal_ids_of(
                        replaced.session.terminals@.filter(
                            orphaned_by(task.id, detached_ids(removed)),
                        ),
                    ),
                    true,
                )
                &&& #[trigger] Self::leaves_detached(closed, left, task.id, detached_ids(removed))
                &&& #[trigger] Self::requests(left, saved, seq![left.persists()])
                &&& #[trigger] Self::reports(saved, told, detached_message(removed), false)
                &&& Self::requests(
                    told,
                    after,
                    seq![
                        Effect::InspectRepositories { scope: GitScope::Task { task_id: task.id } },
                        Effect::Redraw,
                    ],
                )
            }
    }

    /// `after` is `before` with the outcome of taking repositories from a task.
    pub open spec fn finishes_detaching(
        before: Self,
        after: Self,
        result: Result<(ProjectTask, Vec<RemovedTaskRepository>), String>,
        stored: Result<(), String>,
    ) -> bool {
        match (result, stored) {
            (Err(error), _) => Self::reports(
                before.idle(),
                after,
                "Could not remove the repositories: "@ + error@,
                true,
            ),
            (Ok(_), Err(error)) => Self::reports(
                before.idle(),
                after,
                "Could not save the task: "@ + error@,
                true,
            ),
            (Ok((task, removed)), Ok(_)) => Self::detaches(before.idle(), after, task, removed@),
        }
    }

    /// Repositories were taken from a task in the background. `stored` is what
    /// came of writing its record.
    pub fn finish_detached_task_repositories(
        &mut self,
        result: Result<(ProjectTask, Vec<RemovedTaskRepository>), String>,
        stored: Result<(), String>,
    )
        ensures
            Self::finishes_detaching(*old(self), *final(self), result, stored),
    {
        self.busy = None;
        let (task, removed) = match result {
            Ok(value) => value,
            Err(error) => {
                let message = join2("Could not remove the repositories: ", error.as_str());
                self.set_status(message, true);
                return ;
            },
        };
        if let Err(error) = stored {
            let message = join2("Could not save the task: ", error.as_str());
            self.set_status(message, true);
            return ;
        }
        self.detach_repositories(task, &removed);
    }

    fn detach_repositories(&mut self, task: ProjectTask, removed: &Vec<RemovedTaskRepository>)
        ensures
            Self::detaches(*old(self), *final(self), task, removed@),
    {
        let ghost before = *self;
        let ghost wanted = task;
        let task_id: Id = task.id;
        let mut paths: Vec<String> = Vec::new();
        let mut detached: Vec<Id> = Vec::new();
        let mut index: usize = 0;
        while index < removed.len()
            invariant
                index <= removed@.len(),
                paths@.len() == index,
                detached@.len() == index,
                forall|i: int| 0 <= i < index ==> (#[trigger] paths@[i])@ == removed@[i].worktree_path@,
                forall|i: int| 0 <= i < index ==> #[trigger] detached@[i] == removed@[i].repository_id,
            decreases removed@.len() - index,
        {
            paths.push(removed[index].worktree_path.clone());
            detached.push(removed[index].repository_id);
            index += 1;
        }
        assert(crate::text::views(paths@) =~= detached_paths(removed@));
        assert(detached@ =~= detached_ids(removed@));
        self.forget_worktrees(&paths);
        let ghost forgotten = *self;
        assert(Self::forgets_worktrees(before, forgotten, places(detached_paths(removed@)).to_set()));
        self.replace_task(task);
        let ghost replaced = *self;
        assert(Self::replaces_task(forgotten, replaced, wanted));
        let lost = &detached;
        let test = |terminal: &TerminalDescriptor| -> (kept: bool)
            ensures
                kept == (terminal.task_id == Some(task_id) && (
                terminal.repository_id matches Some(repository_id) && lost@.contains(
                    repository_id,
                ))),
        {
            terminal.task_id == Some(task_id) && match terminal.repository_id {
                Some(repository_id) => contains_id(lost, repository_id),
                None => false,
            }
        };
        let orphaned = ids_where(
            &self.session.terminals,
            Ghost(orphaned_by(task_id, detached@)),
            test,
        );
        self.close_all(&orphaned, true);
        let ghost closed = *self;
        assert(Self::closes_all(
            replaced,
            closed,
            terminal_ids_of(
                replaced.session.terminals@.filter(orphaned_by(task_id, detached_ids(removed@))),
            ),
            true,
        ));
        let selected: bool = self.session.selected_task_id == Some(task_id)
            && match self.session.selected_repository_id {
            Some(repository_id) => contains_id(&detached, repository_id),
            None => false,
        };
        if selected {
            self.session.selected_repository_id = None;
        }
        let ghost left = *self;
        assert(Self::leaves_detached(closed, left, task_id, detached_ids(removed@)));
        self.persist_session();
        let ghost saved = *self;
        assert(Self::requests(left, saved, seq![left.persists()]));
        let branches: usize = count_lost_branches(removed);
        let worktrees = decimal_text(removed.len() as u64);
        let message = if branches == 0 {
            join2(worktrees.as_str(), " worktree(s) removed; Git branches were preserved")
        } else {
            join4(
                worktrees.as_str(),
                " worktree(s) removed; ",
                decimal_text(branches as u64).as_str(),
                " branch(es) deleted",
            )
        };
        assert(message@ =~= detached_message(removed@));
        self.set_status(message, false);
        let ghost told = *self;
        assert(Self::reports(saved, told, detached_message(removed@), false));
        self.request_task_git_summaries(task_id);
        self.notify();
        assert(self.effects@ =~= told.effects@ + seq![
            Effect::InspectRepositories { scope: GitScope::Task { task_id } },
            Effect::Redraw,
        ]);
    }
}

// ---------------------------------------------------------------------------
// Managing a project
// ---------------------------------------------------------------------------
/// How a project is to appear.
#[derive(Debug)]
pub struct ProjectPresentation {
    pub name: String,
    pub icon: String,
    pub color: WorkspaceColor,
}

impl BlackholesApp {
    /// A project under another name, which keeps its icon and colour; nothing
    /// where there is no such project.
    pub fn update_project_name(&self, workspace_id: Id, name: String) -> (result: Option<
        ProjectPresentation,
    >)
        ensures
            match (result, workspace_at(self.workspaces@, workspace_id)) {
                (Some(wanted), Some(at)) => wanted == (ProjectPresentation {
                    name,
                    icon: self.workspaces@[at].icon,
                    color: self.workspaces@[at].color,
                }),
                (None, None) => true,
                _ => false,
            },
    {
        match find_workspace(&self.workspaces, workspace_id) {
            Some(at) => Some(
                ProjectPresentation {
                    name,
                    icon: self.workspaces[at].icon.clone(),
                    color: self.workspaces[at].color,
                },
            ),
            None => None,
        }
    }

    /// `after` is `before` with the copy of a project being made.
    pub open spec fn copies_project(before: Self, after: Self, workspace_id: Id, name: Seq<char>) -> bool {
        &&& after.busy matches Some(busy) && busy@ == "Duplicating project…"@
        &&& after.effects@.len() == before.effects@.len() + 2
        &&& after.effects@.take(before.effects@.len() as int) == before.effects@
        &&& after.effects@[before.effects@.len() as int] matches Effect::DuplicateProject {
            workspace_id: of,
            name: copy,
        } && of == workspace_id && copy@ == name + " copy"@
        &&& after.effects@.last() == Effect::Redraw
        &&& after == (BlackholesApp { busy: after.busy, effects: after.effects, ..before })
    }

    /// Copies a project on disk, under the name that stands in the dialog and an
    /// ending of its own.
    pub fn duplicate_project(&mut self, workspace_id: Id, name: &str)
        ensures
            Self::copies_project(*old(self), *final(self), workspace_id, name@),
    {
        self.emit(Effect::DuplicateProject { workspace_id, name: join2(name, " copy") });
        self.busy = Some("Duplicating project…".to_string());
        self.notify();
        assert(self.effects@.take(old(self).effects@.len() as int) =~= old(self).effects@);
    }
}

// ---------------------------------------------------------------------------
// What comes and what stays
// ---------------------------------------------------------------------------
/// A project that was made is the last one, selected and expanded, with its overview
/// shown; every other project stays. One that could not be made or stored, or whose
/// root another project has, is not added, and the user is told.
pub proof fn law_project_finished(
    before: BlackholesApp,
    after: BlackholesApp,
    result: Result<Workspace, String>,
    stored: Result<(), StoreError>,
)
    requires
        BlackholesApp::finishes_workspace(before, after, result, stored),
    ensures
        after.busy is None,
        after.tasks == before.tasks,
        ({
            let known = result is Ok && exists|i: int|
                0 <= i < before.workspaces@.len() && components_of(
                    (#[trigger] before.workspaces@[i]).root_path,
                ) == components_of(result->Ok_0.root_path);
            &&& result is Ok && stored is Ok && !known ==> {
                &&& after.workspaces@ == before.workspaces@.push(result->Ok_0)
                &&& after.session.selected_workspace_id == Some(result->Ok_0.id)
                &&& after.session.selected_task_id is None
                &&& after.session.expanded_workspace_ids@.contains(result->Ok_0.id)
                &&& after.status matches Some(status) && !status.error
            }
            &&& !(result is Ok && stored is Ok && !known) ==> {
                &&& after.workspaces == before.workspaces
                &&& after.session == before.session
                &&& after.status matches Some(status) && status.error
            }
        }),
{
    if result is Ok && stored is Ok && !before.holds_root(result->Ok_0.root_path) {
        let workspace = result->Ok_0;
        lemma_project_added(before.idle(), after, workspace, "Project ready"@);
    }
}

proof fn lemma_project_added(
    before: BlackholesApp,
    after: BlackholesApp,
    workspace: Workspace,
    message: Seq<char>,
)
    requires
        BlackholesApp::adds_project(before, after, workspace, message),
    ensures
        after.workspaces@ == before.workspaces@.push(workspace),
        after.session.selected_workspace_id == Some(workspace.id),
        after.session.selected_task_id is None,
        after.session.expanded_workspace_ids@.contains(workspace.id),
        after.status matches Some(status) && !status.error,
        after.tasks == before.tasks,
        after.busy == before.busy,
{
    let (enrolled, chosen) = choose|enrolled: BlackholesApp, chosen: BlackholesApp| #[trigger]
        BlackholesApp::enrolls_project(before, enrolled, workspace) && #[trigger]
        BlackholesApp::selects_surface(enrolled, chosen, workspace.id, None, None, false)
            && BlackholesApp::reports(chosen, after, message, false);
    crate::ids::law_insert_unique(before.session.expanded_workspace_ids@, workspace.id);
    crate::selection::law_target_selected(enrolled, chosen, workspace.id, None, None, false);
    assert(enrolled.session.expanded_workspace_ids@.contains(workspace.id));
}

/// The repositories of a project that was looked through are the ones it had and those
/// of the folder that it neither had nor ignores, each of them once, by name.
pub proof fn law_repositories_found(
    before: BlackholesApp,
    after: BlackholesApp,
    at: int,
    repositories: Vec<Repository>,
    outcome: RefreshOutcome,
)
    requires
        BlackholesApp::takes_repositories(before, after, at, Ok(repositories), outcome),
        0 <= at < before.workspaces@.len(),
        after.workspaces@[at].repositories@.len() <= usize::MAX,
    ensures
        after.workspaces@.len() == before.workspaces@.len(),
        forall|i: int|
            0 <= i < before.workspaces@.len() && i != at ==> #[trigger] after.workspaces@[i]
                == before.workspaces@[i],
        after.workspaces@[at].id == before.workspaces@[at].id,
        forall|i: int|
            0 <= i < before.workspaces@[at].repositories@.len()
                ==> after.workspaces@[at].repositories@.contains(
                #[trigger] before.workspaces@[at].repositories@[i],
            ),
        forall|i: int|
            0 <= i < repositories@.len() && !has_repository_path(
                before.workspaces@[at].repositories@,
                (#[trigger] repositories@[i]).path@,
            ) && !has_path(
                before.workspaces@[at].ignored_repository_paths@,
                components(repositories@[i].path@),
            ) ==> after.workspaces@[at].repositories@.contains(repositories@[i]),
        forall|j: int, k: int|
            0 <= j < k < after.workspaces@[at].repositories@.len() && after.workspaces
                != before.workspaces ==> !crate::sorting::precedes(
                (#[trigger] after.workspaces@[at].repositories@[k]).name@,
                (#[trigger] after.workspaces@[at].repositories@[j]).name@,
            ),
        forall|i: int|
            0 <= i < after.workspaces@[at].repositories@.len() ==> {
                ||| before.workspaces@[at].repositories@.contains(
                    #[trigger] after.workspaces@[at].repositories@[i],
                )
                ||| repositories@.contains(after.workspaces@[at].repositories@[i]) && !has_path(
                    before.workspaces@[at].ignored_repository_paths@,
                    components(after.workspaces@[at].repositories@[i].path@),
                ) && !has_repository_path(
                    before.workspaces@[at].repositories@,
                    after.workspaces@[at].repositories@[i].path@,
                )
            },
{
    let workspace = before.workspaces@[at];
    let keep = is_new_repository(workspace);
    let found = repositories@.filter(keep);
    assert forall|i: int| 0 <= i < repositories@.len() && keep(#[trigger] repositories@[i]) implies
        found.contains(repositories@[i]) by {
        repositories@.lemma_filter_contains(keep, i);
    }
    if found.len() == 0 {
        assert(after.workspaces == before.workspaces);
        assert forall|i: int|
            0 <= i < repositories@.len() && !has_repository_path(
                workspace.repositories@,
                (#[trigger] repositories@[i]).path@,
            ) && !has_path(
                workspace.ignored_repository_paths@,
                components(repositories@[i].path@),
            ) implies after.workspaces@[at].repositories@.contains(repositories@[i]) by {
            assert(keep(repositories@[i]));
        }
    } else {
        let now = choose|now: Time| #[trigger] merged(workspace, after.workspaces@[at], found, now);
        assert(merged(workspace, after.workspaces@[at], found, now));
        let all = workspace.repositories@ + found;
        let sorted = after.workspaces@[at].repositories@;
        lemma_sorted_same(all, sorted);
        assert forall|i: int| 0 <= i < workspace.repositories@.len() implies sorted.contains(
            #[trigger] workspace.repositories@[i],
        ) by {
            assert(all[i] == workspace.repositories@[i]);
        }
        assert forall|i: int|
            0 <= i < repositories@.len() && !has_repository_path(
                workspace.repositories@,
                (#[trigger] repositories@[i]).path@,
            ) && !has_path(
                workspace.ignored_repository_paths@,
                components(repositories@[i].path@),
            ) implies sorted.contains(repositories@[i]) by {
            assert(keep(repositories@[i]));
            let k = choose|k: int| 0 <= k < found.len() && found[k] == repositories@[i];
            assert(all[workspace.repositories@.len() + k] == repositories@[i]);
        }
        assert forall|i: int| 0 <= i < sorted.len() implies {
            ||| workspace.repositories@.contains(#[trigger] sorted[i])
            ||| repositories@.contains(sorted[i]) && keep(sorted[i])
        } by {
            assert(all.contains(sorted[i]));
            let k = choose|k: int| 0 <= k < all.len() && all[k] == sorted[i];
            if k < workspace.repositories@.len() {
                assert(workspace.repositories@[k] == sorted[i]);
            } else {
                let f = k - workspace.repositories@.len();
                repositories@.lemma_filter_pred(keep, f);
                assert(found.contains(found[f]));
                lemma_filter_within(repositories@, keep, found[f]);
            }
        }
    }
}

/// What a filter keeps was there.
proof fn lemma_filter_within(all: Seq<Repository>, keep: spec_fn(Repository) -> bool, item: Repository)
    requires
        all.filter(keep).contains(item),
    ensures
        all.contains(item),
    decreases all.len(),
{
    reveal(Seq::filter);
    if all.len() > 0 {
        let fewer = all.drop_last();
        if fewer.filter(keep).contains(item) {
            lemma_filter_within(fewer, keep, item);
            let i = choose|i: int| 0 <= i < fewer.len() && fewer[i] == item;
            assert(all[i] == item);
        } else {
            assert(all[all.len() - 1] == all.last());
            let k = choose|k: int| 0 <= k < all.filter(keep).len() && all.filter(keep)[k] == item;
            if keep(all.last()) && k == fewer.filter(keep).len() {
                assert(item == all.last());
            } else {
                assert(fewer.filter(keep)[k] == item);
            }
        }
    }
}

/// Sorting by name keeps what there is, and puts it in the order of the names.
proof fn lemma_sorted_same(before: Seq<Repository>, after: Seq<Repository>)
    requires
        sorted_by_name(before, after),
        before.len() <= usize::MAX,
    ensures
        after.len() == before.len(),
        forall|i: int| 0 <= i < before.len() ==> after.contains(#[trigger] before[i]),
        forall|i: int| 0 <= i < after.len() ==> before.contains(#[trigger] after[i]),
        forall|j: int, k: int|
            0 <= j < k < after.len() ==> !crate::sorting::precedes(
                (#[trigger] after[k]).name@,
                (#[trigger] after[j]).name@,
            ),
{
    let names = repository_names(before);
    let order = choose|order: Seq<usize>|
        #![trigger is_name_order(repository_names(before), order)]
        is_name_order(repository_names(before), order) && after.len() == before.len()
            && forall|k: int|
            0 <= k < after.len() ==> #[trigger] after[k] == before[order[k] as int];
    assert forall|i: int| 0 <= i < after.len() implies before.contains(#[trigger] after[i]) by {
        assert(order[i] < names.len());
    }
    assert forall|j: int, k: int| 0 <= j < k < after.len() implies !crate::sorting::precedes(
        (#[trigger] after[k]).name@,
        (#[trigger] after[j]).name@,
    ) by {
        crate::sorting::law_name_order(names, order, 0);
        assert(order[j] != order[k]);
    }
    assert forall|i: int| 0 <= i < before.len() implies after.contains(#[trigger] before[i]) by {
        crate::sorting::law_name_order(names, order, i);
        let k = choose|k: int| 0 <= k < order.len() && order[k] == i as usize;
        assert(after[k] == before[i]);
    }
}

/// A task that the user waits for is the last one, selected and shown, marked as new and
/// told of. One that could not be made or stored is not added, and the user is told.
pub proof fn law_task_finished(
    before: BlackholesApp,
    after: BlackholesApp,
    result: Result<ProjectTask, String>,
    stored: Result<(), String>,
)
    requires
        BlackholesApp::finishes_task(before, after, result, stored),
        result matches Ok(task) ==> forall|i: int|
            0 <= i < before.tasks@.len() ==> (#[trigger] before.tasks@[i]).id != task.id,
    ensures
        after.busy is None,
        after.workspaces == before.workspaces,
        result is Ok && stored is Ok ==> {
            &&& after.tasks@ == before.tasks@.push(result->Ok_0)
            &&& after.session.selected_task_id == Some(result->Ok_0.id)
            &&& after.session.selected_workspace_id == Some(result->Ok_0.workspace_id)
            &&& after.surface_shown() == Some(SurfaceTarget::TaskDetails { task_id: result->Ok_0.id })
            &&& after.session.unseen_task_ids@.contains(result->Ok_0.id)
            &&& after.status matches Some(status) && !status.error
        },
        !(result is Ok && stored is Ok) ==> {
            &&& after.tasks == before.tasks
            &&& after.session == before.session
            &&& after.status matches Some(status) && status.error
        },
{
    if result is Ok && stored is Ok {
        let task = result->Ok_0;
        let (added, revealed) = choose|added: BlackholesApp, revealed: BlackholesApp|
            {
                &&& #[trigger] BlackholesApp::appends_task(before.idle(), added, task)
                &&& #[trigger] BlackholesApp::reveals(added, revealed, task.id, true)
                &&& BlackholesApp::reports(revealed, after, "Task workspace ready"@, false)
            };
        crate::search::lemma_first_where(added.tasks@, crate::model::task_is(task.id), 0);
        let last = before.tasks@.len() as int;
        assert(crate::model::task_is(task.id)(added.tasks@[last]));
        assert forall|i: int| 0 <= i < last implies !crate::model::task_is(task.id)(
            #[trigger] added.tasks@[i],
        ) by {
            assert(before.tasks@[i].id != task.id);
        }
        crate::reloading::law_task_led_to(added, revealed, task.id, last);
    }
}

/// A changed task takes the place of the one it was; every other task stays. One that
/// could not be changed or stored leaves all as they are, and the user is told.
pub proof fn law_task_updated(
    before: BlackholesApp,
    after: BlackholesApp,
    result: Result<ProjectTask, String>,
    stored: Result<(), String>,
    at: int,
)
    requires
        BlackholesApp::finishes_update(before, after, result, stored),
        0 <= at < before.tasks@.len(),
        result matches Ok(task) ==> before.tasks@[at].id == task.id && forall|i: int|
            0 <= i < at ==> (#[trigger] before.tasks@[i]).id != task.id,
    ensures
        after.busy is None,
        after.session == before.session,
        result is Ok && stored is Ok ==> {
            &&& after.tasks@ == before.tasks@.update(at, result->Ok_0)
            &&& after.status matches Some(status) && !status.error
            &&& BlackholesApp::asked(before, after).contains(
                Effect::InspectRepositories { scope: GitScope::Task { task_id: result->Ok_0.id } },
            )
        },
        !(result is Ok && stored is Ok) ==> {
            &&& after.tasks == before.tasks
            &&& after.status matches Some(status) && status.error
        },
{
    if result is Ok && stored is Ok {
        let task = result->Ok_0;
        crate::search::lemma_first_where(before.tasks@, crate::model::task_is(task.id), 0);
        assert(crate::model::task_is(task.id)(before.tasks@[at]));
        assert(BlackholesApp::asked(before, after)[0] is InspectRepositories);
    }
}

/// A project keeps its place when it is replaced, and no other one changes.
pub proof fn law_project_replaced(
    before: BlackholesApp,
    after: BlackholesApp,
    workspace_id: Id,
    workspace: Workspace,
    outcome: Result<(), String>,
    done: bool,
    at: int,
)
    requires
        BlackholesApp::presents_project(before, after, workspace_id, workspace, outcome, done),
        0 <= at < before.workspaces@.len(),
        before.workspaces@[at].id == workspace_id,
        forall|i: int| 0 <= i < at ==> (#[trigger] before.workspaces@[i]).id != workspace_id,
    ensures
        after.workspaces@ == before.workspaces@.update(at, workspace),
        done == (outcome is Ok),
        outcome is Ok ==> after.status is None,
        outcome is Err ==> (after.status matches Some(status) && status.error),
        after.session == before.session,
        after.tasks == before.tasks,
{
    crate::search::lemma_first_where(before.workspaces@, crate::model::workspace_is(workspace_id), 0);
    assert(crate::model::workspace_is(workspace_id)(before.workspaces@[at]));
}

/// A task that lost repositories is the one that is kept; no terminal is left in what
/// it lost, and the selection is off it. Where it could not be changed or stored,
/// everything stays and the user is told.
pub proof fn law_repositories_detached(
    before: BlackholesApp,
    after: BlackholesApp,
    result: Result<(ProjectTask, Vec<RemovedTaskRepository>), String>,
    stored: Result<(), String>,
    terminal: int,
)
    requires
        BlackholesApp::finishes_detaching(before, after, result, stored),
        0 <= terminal < before.session.terminals@.len(),
    ensures
        !(result is Ok && stored is Ok) ==> after.tasks == before.tasks && after.session
            == before.session && (after.status matches Some(status) && status.error),
        result is Ok && stored is Ok && before.session.terminals@[terminal].task_id == Some(
            result->Ok_0.0.id,
        ) && (exists|i: int|
            0 <= i < (result->Ok_0.1)@.len() && Some((#[trigger] (result->Ok_0.1)@[i]).repository_id)
                == before.session.terminals@[terminal].repository_id) ==> forall|k: int|
            0 <= k < after.session.terminals@.len() ==> (#[trigger] after.session.terminals@[k]).id
                != before.session.terminals@[terminal].id,
        result is Ok && stored is Ok ==> (after.status matches Some(status) && !status.error),
{
    if result is Ok && stored is Ok {
        let (task, list) = result->Ok_0;
        let removed = list@;
        let idle = before.idle();
        let (forgotten, replaced, closed, left, saved, told) = choose|
            forgotten: BlackholesApp,
            replaced: BlackholesApp,
            closed: BlackholesApp,
            left: BlackholesApp,
            saved: BlackholesApp,
            told: BlackholesApp,
        |
            {
                &&& #[trigger] BlackholesApp::forgets_worktrees(
                    idle,
                    forgotten,
                    places(detached_paths(removed)).to_set(),
                )
                &&& #[trigger] BlackholesApp::replaces_task(forgotten, replaced, task)
                &&& #[trigger] BlackholesApp::closes_all(
                    replaced,
                    closed,
                    terminal_ids_of(
                        replaced.session.terminals@.filter(
                            orphaned_by(task.id, detached_ids(removed)),
                        ),
                    ),
                    true,
                )
                &&& #[trigger] BlackholesApp::leaves_detached(
                    closed,
                    left,
                    task.id,
                    detached_ids(removed),
                )
                &&& #[trigger] BlackholesApp::requests(left, saved, seq![left.persists()])
                &&& #[trigger] BlackholesApp::reports(saved, told, detached_message(removed), false)
                &&& BlackholesApp::requests(
                    told,
                    after,
                    seq![
                        Effect::InspectRepositories { scope: GitScope::Task { task_id: task.id } },
                        Effect::Redraw,
                    ],
                )
            };
        let keep = orphaned_by(task.id, detached_ids(removed));
        let orphans = replaced.session.terminals@.filter(keep);
        let ids = terminal_ids_of(orphans);
        crate::invariants::law_all_closed(replaced, closed, ids, true);
        let one = before.session.terminals@[terminal];
        if one.task_id == Some(task.id) && exists|i: int|
            0 <= i < removed.len() && Some((#[trigger] removed[i]).repository_id)
                == one.repository_id {
            let i = choose|i: int|
                0 <= i < removed.len() && Some((#[trigger] removed[i]).repository_id)
                    == one.repository_id;
            assert(detached_ids(removed)[i] == removed[i].repository_id);
            assert(keep(replaced.session.terminals@[terminal]));
            replaced.session.terminals@.lemma_filter_contains(keep, terminal);
            let k = choose|k: int| 0 <= k < orphans.len() && orphans[k] == one;
            assert(ids[k] == one.id);
        }
    }
}

/// A new task of a project comes after those that the project has, and a task of
/// another project does not move it.
pub proof fn law_sort_order(before: BlackholesApp, after: BlackholesApp, task: ProjectTask, id: Id)
    requires
        after.tasks@ == before.tasks@.push(task),
    ensures
        after.next_sort_order(id) == before.next_sort_order(id) + if task.workspace_id == id {
            1int
        } else {
            0int
        },
        0 <= before.next_sort_order(id) <= before.tasks@.len(),
{
    let keep = task_of_project(id);
    reveal(Seq::filter);
    assert(after.tasks@.drop_last() =~= before.tasks@);
    before.tasks@.lemma_filter_len(keep);
}

/// A copy of a project is asked for once, under the project's name marked as a
/// copy, while the application is busy with it.
pub proof fn law_project_copied(
    before: BlackholesApp,
    after: BlackholesApp,
    workspace_id: Id,
    name: Seq<char>,
)
    requires
        BlackholesApp::copies_project(before, after, workspace_id, name),
    ensures
        after.busy is Some,
        BlackholesApp::asked(before, after).len() == 2,
        BlackholesApp::asked(before, after)[0] matches Effect::DuplicateProject {
            workspace_id: of,
            name: copy,
        } && of == workspace_id && copy@ == name + " copy"@,
        after.workspaces == before.workspaces,
{
}

} // verus!
