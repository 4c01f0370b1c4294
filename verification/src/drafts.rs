//! What the user puts together in the dialogs about the repositories of a task,
//! and the requests that come of it.
use vstd::prelude::*;
use vstd::string::*;

use crate::ids::{contains_id, toggle_id, toggled, Id};
use crate::model::Repository;
use crate::search::{first_where, lemma_filter_step, position};
use crate::text::{blank, is_blank, join2, join3, join4, join5, trim, trimmed};

verus! {

// ---------------------------------------------------------------------------
// Choices
// ---------------------------------------------------------------------------
/// What the branch of a task is made from.
#[derive(Clone, Copy, Debug, PartialEq, Eq, Structural)]
pub enum TaskBranchSource {
    Current,
    Local,
    Remote,
}

/// What happens with a branch that exists.
#[derive(Clone, Copy, Debug, PartialEq, Eq, Structural)]
pub enum ExistingBranchAction {
    Reuse,
    Recreate,
}

#[derive(Clone, Copy, Debug, PartialEq, Eq, Structural)]
pub struct RepositoryDraftOptions {
    pub copy_local_changes: bool,
    pub copy_environment_files: bool,
}

#[derive(Clone, Copy, Debug, PartialEq, Eq, Structural)]
pub struct RepositoryOptionsEntry {
    pub repository_id: Id,
    pub options: RepositoryDraftOptions,
}

/// What a check of a branch found in a repository. `base` is the label of the
/// base that the branch would be made from.
#[derive(Debug)]
pub struct BranchAvailability {
    pub repository_name: String,
    pub local_revision: Option<String>,
    pub remote_revision: Option<String>,
    pub local_checked_out: bool,
    pub base: Option<String>,
}

/// The branch exists on the side that owns its name for the source.
pub open spec fn is_present(result: BranchAvailability, source: TaskBranchSource) -> bool {
    match source {
        TaskBranchSource::Remote => result.remote_revision is Some,
        _ => result.local_revision is Some,
    }
}

/// Whether the branch exists on the side that owns its name for the source, which
/// decides whether a base is used at all.
pub fn branch_exists(result: &BranchAvailability, source: TaskBranchSource) -> (found: bool)
    ensures
        found == is_present(*result, source),
{
    match source {
        TaskBranchSource::Remote => result.remote_revision.is_some(),
        _ => result.local_revision.is_some(),
    }
}

/// The base that a branch is made from, where it has to be made.
pub open spec fn base_note(result: BranchAvailability, source: TaskBranchSource) -> Seq<char> {
    match result.base {
        Some(label) if !is_present(result, source) => " · from "@ + label@,
        _ => ""@,
    }
}

fn base_text(result: &BranchAvailability, source: TaskBranchSource) -> (note: String)
    ensures
        note@ == base_note(*result, source),
{
    match &result.base {
        Some(label) => {
            if !branch_exists(result, source) {
                join2(" · from ", label.as_str())
            } else {
                "".to_string()
            }
        },
        None => "".to_string(),
    }
}

/// What a new task would do with the branch in a repository.
pub open spec fn creation_state(result: BranchAvailability, source: TaskBranchSource) -> Seq<char> {
    match source {
        TaskBranchSource::Current => if result.local_revision is Some {
            "existing local branch"@
        } else {
            "new branch from current HEAD"@
        },
        TaskBranchSource::Local => if result.local_revision is Some {
            "local"@
        } else {
            "missing"@
        },
        TaskBranchSource::Remote => if result.remote_revision is Some {
            "origin"@
        } else {
            "missing"@
        },
    }
}

/// The line that tells what a check found, for a new task.
pub open spec fn creation_text(result: BranchAvailability, source: TaskBranchSource) -> Seq<char> {
    result.repository_name@ + ": "@ + creation_state(result, source) + (
    if result.local_checked_out {
        " · already checked out"@
    } else {
        ""@
    }) + base_note(result, source)
}

/// The line that tells what a check found, for a new task.
pub fn creation_line(result: &BranchAvailability, source: TaskBranchSource) -> (line: String)
    ensures
        line@ == creation_text(*result, source),
{
    let state = match source {
        TaskBranchSource::Current => {
            if result.local_revision.is_some() {
                "existing local branch"
            } else {
                "new branch from current HEAD"
            }
        },
        TaskBranchSource::Local => {
            if result.local_revision.is_some() {
                "local"
            } else {
                "missing"
            }
        },
        TaskBranchSource::Remote => {
            if result.remote_revision.is_some() {
                "origin"
            } else {
                "missing"
            }
        },
    };
    let checked_out = if result.local_checked_out {
        " · already checked out"
    } else {
        ""
    };
    join5(
        result.repository_name.as_str(),
        ": ",
        state,
        checked_out,
        base_text(result, source).as_str(),
    )
}

/// What an addition to a task would do with the branch in a repository.
pub open spec fn addition_state(result: BranchAvailability, source: TaskBranchSource) -> Seq<char> {
    if result.local_checked_out {
        "already checked out"@
    } else if is_present(result, source) {
        "found"@
    } else {
        "missing"@
    }
}

/// The line that tells what a check found, for repositories added to a task.
pub open spec fn addition_text(result: BranchAvailability, source: TaskBranchSource) -> Seq<char> {
    result.repository_name@ + ": "@ + addition_state(result, source) + base_note(result, source)
}

/// The line that tells what a check found, for repositories added to a task.
pub fn addition_line(result: &BranchAvailability, source: TaskBranchSource) -> (line: String)
    ensures
        line@ == addition_text(*result, source),
{
    let state = if result.local_checked_out {
        "already checked out"
    } else if branch_exists(result, source) {
        "found"
    } else {
        "missing"
    };
    join4(
        result.repository_name.as_str(),
        ": ",
        state,
        base_text(result, source).as_str(),
    )
}

/// The mark of a choice.
pub open spec fn choice_mark(chosen: bool) -> Seq<char> {
    if chosen {
        "●"@
    } else {
        "○"@
    }
}

fn mark(chosen: bool) -> (result: &'static str)
    ensures
        result@ == choice_mark(chosen),
{
    if chosen {
        "●"
    } else {
        "○"
    }
}

/// An option with its mark.
pub fn option_line(chosen: bool, label: &str) -> (line: String)
    ensures
        line@ == choice_mark(chosen) + " "@ + label@,
{
    join3(mark(chosen), " ", label)
}

/// A repository with its mark.
pub fn repository_line(chosen: bool, name: &str) -> (line: String)
    ensures
        line@ == choice_mark(chosen) + "  "@ + name@,
{
    join3(mark(chosen), "  ", name)
}

/// A repository of a task with its mark and its branch.
pub fn attached_line(chosen: bool, name: &str, branch: &str) -> (line: String)
    ensures
        line@ == choice_mark(chosen) + "  "@ + name@ + "  ·  "@ + branch@,
{
    join5(mark(chosen), "  ", name, "  ·  ", branch)
}

// ---------------------------------------------------------------------------
// Drafts
// ---------------------------------------------------------------------------
/// The choices for a new task, or for repositories added to one.
#[derive(Debug)]
pub struct TaskDraftOptions {
    pub selected_repositories: Vec<Id>,
    pub branch_source: TaskBranchSource,
    pub create_missing_branch: bool,
    pub replace_divergent_local_branches: bool,
    pub existing_branch_action: ExistingBranchAction,
    pub repository_options: Vec<RepositoryOptionsEntry>,
    pub availability: Option<Vec<BranchAvailability>>,
}

pub open spec fn entry_is(repository_id: Id) -> spec_fn(RepositoryOptionsEntry) -> bool {
    |entry: RepositoryOptionsEntry| entry.repository_id == repository_id
}

pub open spec fn plain_options() -> RepositoryDraftOptions {
    RepositoryDraftOptions { copy_local_changes: false, copy_environment_files: false }
}

/// The options of a repository; nothing is copied where none were chosen.
pub open spec fn options_of(entries: Seq<RepositoryOptionsEntry>, repository_id: Id) -> RepositoryDraftOptions {
    match first_where(entries, entry_is(repository_id), 0) {
        Some(at) => entries[at].options,
        None => plain_options(),
    }
}

/// The parts of the dialogs that depend on the source of the branch.
#[derive(Clone, Copy, Debug, PartialEq, Eq, Structural)]
pub struct BranchSections {
    pub existing_branch: bool,
    pub create_missing: bool,
    pub replace_divergent: bool,
    pub check_on_addition: bool,
}

/// What a check of a branch is made with.
#[derive(Debug)]
pub struct BranchCheck {
    pub repository_ids: Vec<Id>,
    pub branch_name: String,
    pub branch_source: TaskBranchSource,
    pub base_ref: Option<String>,
}

impl TaskDraftOptions {
    /// A draft with nothing chosen.
    pub fn new(branch_source: TaskBranchSource, existing_branch_action: ExistingBranchAction) -> (result:
        Self)
        ensures
            result.selected_repositories@ == Seq::<Id>::empty(),
            result.repository_options@ == Seq::<RepositoryOptionsEntry>::empty(),
            result.branch_source == branch_source,
            result.existing_branch_action == existing_branch_action,
            !result.create_missing_branch,
            !result.replace_divergent_local_branches,
            result.availability is None,
    {
        TaskDraftOptions {
            selected_repositories: Vec::new(),
            branch_source,
            create_missing_branch: false,
            replace_divergent_local_branches: false,
            existing_branch_action,
            repository_options: Vec::new(),
            availability: None,
        }
    }

    /// The options of a repository.
    pub open spec fn options(&self, repository_id: Id) -> RepositoryDraftOptions {
        options_of(self.repository_options@, repository_id)
    }

    /// The options of a repository.
    pub fn options_for(&self, repository_id: Id) -> (result: RepositoryDraftOptions)
        ensures
            result == self.options(repository_id),
    {
        match self.find_options(repository_id) {
            Some(at) => self.repository_options[at].options,
            None => RepositoryDraftOptions {
                copy_local_changes: false,
                copy_environment_files: false,
            },
        }
    }

    fn find_options(&self, repository_id: Id) -> (result: Option<usize>)
        ensures
            position(result) == first_where(self.repository_options@, entry_is(repository_id), 0),
            result matches Some(at) ==> at < self.repository_options@.len()
                && self.repository_options@[at as int].repository_id == repository_id,
    {
        let ghost entries = self.repository_options@;
        let ghost test = entry_is(repository_id);
        let mut index: usize = 0;
        while index < self.repository_options.len()
            invariant
                entries == self.repository_options@,
                test == entry_is(repository_id),
                index <= entries.len(),
                first_where(entries, test, 0) == first_where(entries, test, index as int),
            decreases entries.len() - index,
        {
            if self.repository_options[index].repository_id == repository_id {
                return Some(index);
            }
            index += 1;
        }
        None
    }

    /// Whether the repository is chosen.
    pub fn is_selected(&self, repository_id: Id) -> (result: bool)
        ensures
            result == self.selected_repositories@.contains(repository_id),
    {
        contains_id(&self.selected_repositories, repository_id)
    }

    /// Chooses a source for the branch; what a check found no longer counts.
    pub fn set_branch_source(&mut self, branch_source: TaskBranchSource)
        ensures
            *final(self) == (TaskDraftOptions {
                branch_source,
                availability: None,
                ..*old(self)
            }),
    {
        self.branch_source = branch_source;
        self.availability = None;
    }

    pub fn set_existing_branch_action(&mut self, existing_branch_action: ExistingBranchAction)
        ensures
            *final(self) == (TaskDraftOptions { existing_branch_action, ..*old(self) }),
    {
        self.existing_branch_action = existing_branch_action;
    }

    pub fn toggle_create_missing(&mut self)
        ensures
            *final(self) == (TaskDraftOptions {
                create_missing_branch: !old(self).create_missing_branch,
                ..*old(self)
            }),
    {
        self.create_missing_branch = !self.create_missing_branch;
    }

    pub fn toggle_replace_divergent(&mut self)
        ensures
            *final(self) == (TaskDraftOptions {
                replace_divergent_local_branches: !old(self).replace_divergent_local_branches,
                ..*old(self)
            }),
    {
        self.replace_divergent_local_branches = !self.replace_divergent_local_branches;
    }

    /// `after` is `before` with a repository chosen, or left out again; its options
    /// stay, and what a check found no longer counts.
    pub open spec fn picks(before: Self, after: Self, repository_id: Id) -> bool {
        &&& after.selected_repositories@ == toggled(before.selected_repositories@, repository_id)
        &&& after == (TaskDraftOptions {
            selected_repositories: after.selected_repositories,
            availability: None,
            ..before
        })
    }

    /// Chooses a repository, or leaves it out again.
    pub fn toggle_repository(&mut self, repository_id: Id)
        ensures
            Self::picks(*old(self), *final(self), repository_id),
    {
        toggle_id(&mut self.selected_repositories, repository_id);
        self.availability = None;
    }

    /// `after` is `before` with the options of one repository changed.
    pub open spec fn changes_options(
        before: Self,
        after: Self,
        repository_id: Id,
        options: RepositoryDraftOptions,
    ) -> bool {
        &&& after.options(repository_id) == options
        &&& forall|other: Id|
            other != repository_id ==> #[trigger] after.options(other) == before.options(other)
        &&& after == (TaskDraftOptions { repository_options: after.repository_options, ..before })
    }

    fn set_options(&mut self, repository_id: Id, options: RepositoryDraftOptions)
        ensures
            Self::changes_options(*old(self), *final(self), repository_id, options),
    {
        let ghost before = *self;
        match self.find_options(repository_id) {
            Some(at) => {
                self.repository_options[at].options = options;
                proof {
                    let entries = before.repository_options@;
                    let changed = self.repository_options@;
                    assert(changed =~= entries.update(
                        at as int,
                        RepositoryOptionsEntry { repository_id, options },
                    ));
                    assert forall|other: Id| first_where(changed, entry_is(other), 0)
                        == #[trigger] first_where(entries, entry_is(other), 0) by {
                        lemma_same_places(entries, changed, other, 0);
                    }
                    assert forall|other: Id| other != repository_id implies #[trigger] self.options(
                        other,
                    ) == before.options(other) by {
                        assert(first_where(entries, entry_is(other), 0) == first_where(
                            changed,
                            entry_is(other),
                            0,
                        ));
                        if first_where(entries, entry_is(other), 0) is Some {
                            crate::search::lemma_first_where(entries, entry_is(other), 0);
                        }
                    }
                }
            },
            None => {
                self.repository_options.push(RepositoryOptionsEntry { repository_id, options });
                proof {
                    let entries = before.repository_options@;
                    assert forall|other: Id| #[trigger] self.options(other) == if other
                        == repository_id {
                        options
                    } else {
                        before.options(other)
                    } by {
                        lemma_place_after_push(
                            entries,
                            RepositoryOptionsEntry { repository_id, options },
                            other,
                            0,
                        );
                        if first_where(entries, entry_is(other), 0) is Some {
                            crate::search::lemma_first_where(entries, entry_is(other), 0);
                        }
                    }
                }
            },
        }
    }

    /// Copies the local changes of a repository, or no longer.
    pub fn toggle_copy_local_changes(&mut self, repository_id: Id)
        ensures
            Self::changes_options(
                *old(self),
                *final(self),
                repository_id,
                RepositoryDraftOptions {
                    copy_local_changes: !old(self).options(repository_id).copy_local_changes,
                    ..old(self).options(repository_id)
                },
            ),
    {
        let mut options = self.options_for(repository_id);
        options.copy_local_changes = !options.copy_local_changes;
        self.set_options(repository_id, options);
    }

    /// Copies the environment files of a repository, or no longer.
    pub fn toggle_copy_environment_files(&mut self, repository_id: Id)
        ensures
            Self::changes_options(
                *old(self),
                *final(self),
                repository_id,
                RepositoryDraftOptions {
                    copy_environment_files: !old(self).options(
                        repository_id,
                    ).copy_environment_files,
                    ..old(self).options(repository_id)
                },
            ),
    {
        let mut options = self.options_for(repository_id);
        options.copy_environment_files = !options.copy_environment_files;
        self.set_options(repository_id, options);
    }

    /// The parts of the dialogs that are shown for the source of the branch.
    pub fn sections(&self) -> (result: BranchSections)
        ensures
            result == (BranchSections {
                existing_branch: self.branch_source == TaskBranchSource::Current,
                create_missing: self.branch_source != TaskBranchSource::Current,
                replace_divergent: self.branch_source == TaskBranchSource::Remote,
                check_on_addition: self.branch_source != TaskBranchSource::Current,
            }),
    {
        let current: bool = self.branch_source == TaskBranchSource::Current;
        BranchSections {
            existing_branch: current,
            create_missing: !current,
            replace_divergent: self.branch_source == TaskBranchSource::Remote,
            check_on_addition: !current,
        }
    }

    /// The check is of the branch in the selected repositories.
    pub open spec fn checks(self, check: BranchCheck, branch_name: Seq<char>, base: Seq<char>) -> bool {
        &&& check.repository_ids@ == self.selected_repositories@
        &&& check.branch_name@ == branch_name
        &&& check.branch_source == self.branch_source
        &&& is_value_of(check.base_ref, base)
    }

    /// `result` is the check of the branch that a new task is to have; none where the
    /// name is blank or no repository is selected.
    pub open spec fn checks_branch(
        self,
        branch_name: Seq<char>,
        base: Seq<char>,
        result: Option<BranchCheck>,
    ) -> bool {
        match result {
            Some(check) => {
                &&& !is_blank(branch_name)
                &&& self.selected_repositories@.len() > 0
                &&& self.checks(check, branch_name, base)
            },
            None => is_blank(branch_name) || self.selected_repositories@.len() == 0,
        }
    }

    /// The check of the branch that a new task is to have.
    pub fn branch_check(&self, branch_name: &str, base: &str) -> (result: Option<BranchCheck>)
        ensures
            self.checks_branch(branch_name@, base@, result),
    {
        if blank(branch_name) {
            return None;
        }
        self.addition_branch_check(branch_name, base)
    }

    /// The check of the branch that a task has, in repositories to be added to it;
    /// none where no repository is selected.
    pub fn addition_branch_check(&self, branch_name: &str, base: &str) -> (result: Option<BranchCheck>)
        ensures
            match result {
                Some(check) => {
                    &&& self.selected_repositories@.len() > 0
                    &&& self.checks(check, branch_name@, base@)
                },
                None => self.selected_repositories@.len() == 0,
            },
    {
        if self.selected_repositories.len() == 0 {
            return None;
        }
        Some(
            BranchCheck {
                repository_ids: copy_ids(&self.selected_repositories),
                branch_name: branch_name.to_string(),
                branch_source: self.branch_source,
                base_ref: non_empty_value(base),
            },
        )
    }
}

proof fn lemma_same_places(
    entries: Seq<RepositoryOptionsEntry>,
    changed: Seq<RepositoryOptionsEntry>,
    repository_id: Id,
    from: int,
)
    requires
        0 <= from <= entries.len(),
        changed.len() == entries.len(),
        forall|i: int|
            0 <= i < entries.len() ==> (#[trigger] changed[i]).repository_id
                == entries[i].repository_id,
    ensures
        first_where(changed, entry_is(repository_id), from) == first_where(
            entries,
            entry_is(repository_id),
            from,
        ),
    decreases entries.len() - from,
{
    if from < entries.len() {
        assert(changed[from].repository_id == entries[from].repository_id);
        lemma_same_places(entries, changed, repository_id, from + 1);
    }
}

proof fn lemma_place_after_push(
    entries: Seq<RepositoryOptionsEntry>,
    entry: RepositoryOptionsEntry,
    repository_id: Id,
    from: int,
)
    requires
        0 <= from <= entries.len(),
    ensures
        first_where(entries.push(entry), entry_is(repository_id), from) == match first_where(
            entries,
            entry_is(repository_id),
            from,
        ) {
            Some(at) => Some(at),
            None => if entry.repository_id == repository_id {
                Some(entries.len() as int)
            } else {
                None
            },
        },
    decreases entries.len() - from,
{
    reveal_with_fuel(first_where, 2);
    if from < entries.len() {
        assert(entries.push(entry)[from] == entries[from]);
        lemma_place_after_push(entries, entry, repository_id, from + 1);
    } else {
        assert(entries.push(entry)[from] == entry);
    }
}

pub(crate) fn copy_ids(ids: &Vec<Id>) -> (result: Vec<Id>)
    ensures
        result@ == ids@,
{
    let mut result: Vec<Id> = Vec::new();
    let mut index: usize = 0;
    while index < ids.len()
        invariant
            index <= ids@.len(),
            result@ == ids@.take(index as int),
        decreases ids@.len() - index,
    {
        result.push(ids[index]);
        index += 1;
        assert(result@ =~= ids@.take(index as int));
    }
    assert(ids@.take(index as int) =~= ids@);
    result
}

/// The text of a field without the space around it, if there is any text.
pub open spec fn is_value_of(value: Option<String>, field: Seq<char>) -> bool {
    match value {
        Some(text) => text@ == trimmed(field) && trimmed(field).len() > 0,
        None => trimmed(field).len() == 0,
    }
}

/// The text of a field without the space around it, if there is any text.
pub fn non_empty_value(field: &str) -> (result: Option<String>)
    ensures
        is_value_of(result, field@),
{
    let value = trim(field);
    if value.as_str().unicode_len() == 0 {
        None
    } else {
        Some(value)
    }
}

// ---------------------------------------------------------------------------
// Requests
// ---------------------------------------------------------------------------
/// How a repository is prepared for a task.
#[derive(Debug)]
pub struct RepositoryPreparation {
    pub repository_id: Id,
    pub copy_local_changes: bool,
    pub copy_environment_files: bool,
    pub setup_command: Option<String>,
}

#[derive(Debug)]
pub struct CreateTaskRequest {
    pub title: String,
    pub description: Option<String>,
    pub acceptance_criteria: Option<String>,
    pub pull_request_url: Option<String>,
    pub external_task_url: Option<String>,
    pub branch_name: Option<String>,
    pub branch_source: TaskBranchSource,
    pub base_ref: Option<String>,
    pub create_missing_branch: bool,
    pub replace_divergent_local_branches: bool,
    pub existing_branch_action: ExistingBranchAction,
    pub repository_ids: Vec<Id>,
    pub preparations: Vec<RepositoryPreparation>,
}

#[derive(Debug)]
pub struct AddTaskRepositoriesRequest {
    pub repository_ids: Vec<Id>,
    pub branch_source: TaskBranchSource,
    pub base_ref: Option<String>,
    pub create_missing_branch: bool,
    pub replace_divergent_local_branches: bool,
    pub existing_branch_action: ExistingBranchAction,
    pub preparations: Vec<RepositoryPreparation>,
}

#[derive(Debug)]
pub struct RemoveTaskRepositoriesRequest {
    pub repository_ids: Vec<Id>,
    pub discard_uncommitted_changes: bool,
    pub delete_branch: bool,
}

/// What stands in the field for the command that prepares a repository.
#[derive(Debug)]
pub struct SetupCommand {
    pub repository_id: Id,
    pub command: String,
}

pub open spec fn command_is(repository_id: Id) -> spec_fn(SetupCommand) -> bool {
    |entry: SetupCommand| entry.repository_id == repository_id
}

/// The command that prepares a repository, where one was entered.
pub open spec fn is_command_for(command: Option<String>, commands: Seq<SetupCommand>, repository_id: Id) -> bool {
    match first_where(commands, command_is(repository_id), 0) {
        Some(at) => if is_blank(commands[at].command@) {
            command is None
        } else {
            command matches Some(text) && text@ == commands[at].command@
        },
        None => command is None,
    }
}

fn command_for(commands: &Vec<SetupCommand>, repository_id: Id) -> (result: Option<String>)
    ensures
        is_command_for(result, commands@, repository_id),
{
    let ghost test = command_is(repository_id);
    let mut index: usize = 0;
    while index < commands.len()
        invariant
            test == command_is(repository_id),
            index <= commands@.len(),
            first_where(commands@, test, 0) == first_where(commands@, test, index as int),
        decreases commands@.len() - index,
    {
        if commands[index].repository_id == repository_id {
            if blank(commands[index].command.as_str()) {
                return None;
            }
            return Some(commands[index].command.clone());
        }
        index += 1;
    }
    None
}

/// How each of the repositories is prepared.
pub open spec fn prepares(
    preparations: Seq<RepositoryPreparation>,
    repository_ids: Seq<Id>,
    draft: TaskDraftOptions,
    commands: Seq<SetupCommand>,
) -> bool {
    &&& preparations.len() == repository_ids.len()
    &&& forall|i: int|
        0 <= i < preparations.len() ==> {
            let options = draft.options(repository_ids[i]);
            &&& (#[trigger] preparations[i]).repository_id == repository_ids[i]
            &&& preparations[i].copy_local_changes == options.copy_local_changes
            &&& preparations[i].copy_environment_files == options.copy_environment_files
            &&& is_command_for(preparations[i].setup_command, commands, repository_ids[i])
        }
}

/// The repositories of a project that are chosen, in the order of the project.
pub open spec fn chosen_ids(repositories: Seq<Repository>, selected: Seq<Id>) -> Seq<Id> {
    repositories.filter(is_chosen(selected)).map_values(|repository: Repository| repository.id)
}

pub open spec fn is_chosen(selected: Seq<Id>) -> spec_fn(Repository) -> bool {
    |repository: Repository| selected.contains(repository.id)
}

/// The fields of the dialog for a new task.
#[derive(Debug)]
pub struct TaskForm {
    pub title: String,
    pub branch_name: String,
    pub base: String,
    pub description: String,
    pub setup_commands: Vec<SetupCommand>,
}

impl TaskDraftOptions {
    fn preparations(&self, repository_ids: &Vec<Id>, commands: &Vec<SetupCommand>) -> (result: Vec<
        RepositoryPreparation,
    >)
        ensures
            prepares(result@, repository_ids@, *self, commands@),
    {
        let mut result: Vec<RepositoryPreparation> = Vec::new();
        let mut index: usize = 0;
        while index < repository_ids.len()
            invariant
                index <= repository_ids@.len(),
                prepares(result@, repository_ids@.take(index as int), *self, commands@),
            decreases repository_ids@.len() - index,
        {
            let repository_id: Id = repository_ids[index];
            let options = self.options_for(repository_id);
            result.push(
                RepositoryPreparation {
                    repository_id,
                    copy_local_changes: options.copy_local_changes,
                    copy_environment_files: options.copy_environment_files,
                    setup_command: command_for(commands, repository_id),
                },
            );
            index += 1;
        }
        assert(repository_ids@.take(index as int) =~= repository_ids@);
        result
    }

    fn chosen_of(&self, repositories: &Vec<Repository>) -> (result: Vec<Id>)
        ensures
            result@ == chosen_ids(repositories@, self.selected_repositories@),
    {
        let ghost keep = is_chosen(self.selected_repositories@);
        let mut result: Vec<Id> = Vec::new();
        let mut index: usize = 0;
        assert(repositories@.take(0).filter(keep) =~= Seq::<Repository>::empty());
        assert(result@ =~= chosen_ids(repositories@.take(0), self.selected_repositories@));
        while index < repositories.len()
            invariant
                keep == is_chosen(self.selected_repositories@),
                index <= repositories@.len(),
                result@ == chosen_ids(
                    repositories@.take(index as int),
                    self.selected_repositories@,
                ),
            decreases repositories@.len() - index,
        {
            proof {
                lemma_filter_step(repositories@, keep, index as int);
            }
            if contains_id(&self.selected_repositories, repositories[index].id) {
                result.push(repositories[index].id);
            }
            index += 1;
            assert(result@ =~= chosen_ids(
                repositories@.take(index as int),
                self.selected_repositories@,
            ));
        }
        assert(repositories@.take(index as int) =~= repositories@);
        result
    }

    /// `result` is the request for a new task in a project with these repositories;
    /// none without a title or a repository of the project.
    pub open spec fn creates(
        self,
        form: TaskForm,
        repositories: Seq<Repository>,
        result: Option<CreateTaskRequest>,
    ) -> bool {
        let ids = chosen_ids(repositories, self.selected_repositories@);
        match result {
            None => is_blank(form.title@) || ids.len() == 0,
            Some(request) => {
                &&& !is_blank(form.title@)
                &&& ids.len() > 0
                &&& request.title@ == form.title@
                &&& request.description matches Some(text) && text@ == form.description@
                &&& request.acceptance_criteria is None
                &&& request.pull_request_url is None
                &&& request.external_task_url is None
                &&& request.branch_name matches Some(text) && text@ == form.branch_name@
                &&& request.branch_source == self.branch_source
                &&& is_value_of(request.base_ref, form.base@)
                &&& request.create_missing_branch == self.create_missing_branch
                &&& request.replace_divergent_local_branches == self.replace_divergent_local_branches
                &&& request.existing_branch_action == self.existing_branch_action
                &&& request.repository_ids@ == ids
                &&& prepares(request.preparations@, ids, self, form.setup_commands@)
            },
        }
    }

    /// The request for a new task.
    pub fn create_request(&self, form: &TaskForm, repositories: &Vec<Repository>) -> (result: Option<
        CreateTaskRequest,
    >)
        ensures
            self.creates(*form, repositories@, result),
    {
        if blank(form.title.as_str()) {
            return None;
        }
        let repository_ids = self.chosen_of(repositories);
        if repository_ids.len() == 0 {
            return None;
        }
        let preparations = self.preparations(&repository_ids, &form.setup_commands);
        Some(
            CreateTaskRequest {
                title: form.title.clone(),
                description: Some(form.description.clone()),
                acceptance_criteria: None,
                pull_request_url: None,
                external_task_url: None,
                branch_name: Some(form.branch_name.clone()),
                branch_source: self.branch_source,
                base_ref: non_empty_value(form.base.as_str()),
                create_missing_branch: self.create_missing_branch,
                replace_divergent_local_branches: self.replace_divergent_local_branches,
                existing_branch_action: self.existing_branch_action,
                repository_ids,
                preparations,
            },
        )
    }

    /// `result` is the request to add repositories to a task; none without a
    /// repository.
    pub open spec fn adds(
        self,
        base: Seq<char>,
        setup_commands: Seq<SetupCommand>,
        result: Option<AddTaskRepositoriesRequest>,
    ) -> bool {
        match result {
            None => self.selected_repositories@.len() == 0,
            Some(request) => {
                &&& self.selected_repositories@.len() > 0
                &&& request.repository_ids@ == self.selected_repositories@
                &&& request.branch_source == self.branch_source
                &&& is_value_of(request.base_ref, base)
                &&& request.create_missing_branch == self.create_missing_branch
                &&& request.replace_divergent_local_branches == self.replace_divergent_local_branches
                &&& request.existing_branch_action == self.existing_branch_action
                &&& prepares(
                    request.preparations@,
                    self.selected_repositories@,
                    self,
                    setup_commands,
                )
            },
        }
    }

    /// The request to add repositories to a task.
    pub fn add_request(&self, base: &str, setup_commands: &Vec<SetupCommand>) -> (result: Option<
        AddTaskRepositoriesRequest,
    >)
        ensures
            self.adds(base@, setup_commands@, result),
    {
        if self.selected_repositories.len() == 0 {
            return None;
        }
        let repository_ids = copy_ids(&self.selected_repositories);
        let preparations = self.preparations(&repository_ids, setup_commands);
        Some(
            AddTaskRepositoriesRequest {
                repository_ids,
                branch_source: self.branch_source,
                base_ref: non_empty_value(base),
                create_missing_branch: self.create_missing_branch,
                replace_divergent_local_branches: self.replace_divergent_local_branches,
                existing_branch_action: self.existing_branch_action,
                preparations,
            },
        )
    }
}

/// The choices for repositories taken from a task.
#[derive(Debug)]
pub struct DetachRepositoriesDraft {
    pub selected_repositories: Vec<Id>,
    pub delete_branch: bool,
    pub discard_uncommitted_changes: bool,
}

impl DetachRepositoriesDraft {
    /// A draft with nothing chosen.
    pub fn new() -> (result: Self)
        ensures
            result.selected_repositories@ == Seq::<Id>::empty(),
            !result.delete_branch,
            !result.discard_uncommitted_changes,
    {
        DetachRepositoriesDraft {
            selected_repositories: Vec::new(),
            delete_branch: false,
            discard_uncommitted_changes: false,
        }
    }

    pub fn toggle_repository(&mut self, repository_id: Id)
        ensures
            final(self).selected_repositories@ == toggled(
                old(self).selected_repositories@,
                repository_id,
            ),
            *final(self) == (DetachRepositoriesDraft {
                selected_repositories: final(self).selected_repositories,
                ..*old(self)
            }),
    {
        toggle_id(&mut self.selected_repositories, repository_id);
    }

    pub fn toggle_delete_branch(&mut self)
        ensures
            *final(self) == (DetachRepositoriesDraft {
                delete_branch: !old(self).delete_branch,
                ..*old(self)
            }),
    {
        self.delete_branch = !self.delete_branch;
    }

    pub fn toggle_discard_changes(&mut self)
        ensures
            *final(self) == (DetachRepositoriesDraft {
                discard_uncommitted_changes: !old(self).discard_uncommitted_changes,
                ..*old(self)
            }),
    {
        self.discard_uncommitted_changes = !self.discard_uncommitted_changes;
    }

    /// `result` is the request to take repositories from a task; none without a
    /// repository.
    pub open spec fn detaches(self, result: Option<RemoveTaskRepositoriesRequest>) -> bool {
        match result {
            None => self.selected_repositories@.len() == 0,
            Some(request) => {
                &&& self.selected_repositories@.len() > 0
                &&& request.repository_ids@ == self.selected_repositories@
                &&& request.discard_uncommitted_changes == self.discard_uncommitted_changes
                &&& request.delete_branch == self.delete_branch
            },
        }
    }

    /// The request to take repositories from a task.
    pub fn request(&self) -> (result: Option<RemoveTaskRepositoriesRequest>)
        ensures
            self.detaches(result),
    {
        if self.selected_repositories.len() == 0 {
            return None;
        }
        Some(
            RemoveTaskRepositoriesRequest {
                repository_ids: copy_ids(&self.selected_repositories),
                discard_uncommitted_changes: self.discard_uncommitted_changes,
                delete_branch: self.delete_branch,
            },
        )
    }
}

// ---------------------------------------------------------------------------
// What a draft asks for
// ---------------------------------------------------------------------------
/// A draft asks for a task as soon as it has a title and one repository of the project
/// is chosen, and then for exactly the chosen ones, each prepared as it was marked.
pub proof fn law_task_requested(
    draft: TaskDraftOptions,
    form: TaskForm,
    repositories: Seq<Repository>,
    result: Option<CreateTaskRequest>,
    id: Id,
)
    requires
        draft.creates(form, repositories, result),
    ensures
        result is Some <==> !is_blank(form.title@) && exists|i: int|
            0 <= i < repositories.len() && draft.selected_repositories@.contains(
                (#[trigger] repositories[i]).id,
            ),
        result matches Some(request) ==> {
            &&& request.title@ == form.title@
            &&& request.branch_source == draft.branch_source
            &&& request.repository_ids@.contains(id) <==> draft.selected_repositories@.contains(id)
                && exists|i: int|
                0 <= i < repositories.len() && (#[trigger] repositories[i]).id == id
            &&& request.preparations@.len() == request.repository_ids@.len()
            &&& forall|i: int|
                0 <= i < request.preparations@.len() ==> (
                #[trigger] request.preparations@[i]).repository_id == request.repository_ids@[i]
                    && request.preparations@[i].copy_local_changes == draft.options(
                    request.repository_ids@[i],
                ).copy_local_changes && request.preparations@[i].copy_environment_files
                    == draft.options(request.repository_ids@[i]).copy_environment_files
        },
{
    let keep = is_chosen(draft.selected_repositories@);
    let chosen = repositories.filter(keep);
    let ids = chosen_ids(repositories, draft.selected_repositories@);
    lemma_chosen(repositories, keep, id);
    if exists|i: int|
        0 <= i < repositories.len() && draft.selected_repositories@.contains(
            (#[trigger] repositories[i]).id,
        ) {
        let i = choose|i: int|
            0 <= i < repositories.len() && draft.selected_repositories@.contains(
                (#[trigger] repositories[i]).id,
            );
        repositories.lemma_filter_contains(keep, i);
        assert(chosen.len() > 0);
    }
    if chosen.len() > 0 {
        repositories.lemma_filter_pred(keep, 0);
        lemma_chosen(repositories, keep, chosen[0].id);
        assert(ids[0] == chosen[0].id);
    }
    if ids.contains(id) {
        let k = choose|k: int| 0 <= k < ids.len() && ids[k] == id;
        assert(chosen[k].id == id);
    }
    if exists|k: int| 0 <= k < chosen.len() && (#[trigger] chosen[k]).id == id {
        let k = choose|k: int| 0 <= k < chosen.len() && (#[trigger] chosen[k]).id == id;
        assert(ids[k] == id);
    }
}

/// What is chosen of the repositories is what was there and is kept.
proof fn lemma_chosen(repositories: Seq<Repository>, keep: spec_fn(Repository) -> bool, id: Id)
    ensures
        (exists|k: int|
            0 <= k < repositories.filter(keep).len() && (
            #[trigger] repositories.filter(keep)[k]).id == id) <==> exists|i: int|
            0 <= i < repositories.len() && keep(#[trigger] repositories[i]) && repositories[i].id
                == id,
    decreases repositories.len(),
{
    reveal(Seq::filter);
    if repositories.len() > 0 {
        let fewer = repositories.drop_last();
        let last = repositories.len() - 1;
        lemma_chosen(fewer, keep, id);
        let before = fewer.filter(keep);
        let after = repositories.filter(keep);
        assert(repositories[last] == repositories.last());
        if exists|k: int| 0 <= k < after.len() && (#[trigger] after[k]).id == id {
            let k = choose|k: int| 0 <= k < after.len() && (#[trigger] after[k]).id == id;
            if k < before.len() {
                assert(before[k].id == id);
                let i = choose|i: int|
                    0 <= i < fewer.len() && keep(#[trigger] fewer[i]) && fewer[i].id == id;
                assert(keep(repositories[i]));
            } else {
                assert(keep(repositories[last]));
            }
        }
        if exists|i: int|
            0 <= i < repositories.len() && keep(#[trigger] repositories[i]) && repositories[i].id
                == id {
            let i = choose|i: int|
                0 <= i < repositories.len() && keep(#[trigger] repositories[i])
                    && repositories[i].id == id;
            if i < last {
                assert(keep(fewer[i]) && fewer[i].id == id);
                let k = choose|k: int| 0 <= k < before.len() && (#[trigger] before[k]).id == id;
                assert(after[k].id == id);
            } else {
                assert(after[before.len() as int].id == id);
            }
        }
    }
}

/// Choosing a repository chooses it or leaves it out, and no other one; what a check
/// found counts no longer, and what the repositories were marked with stays.
pub proof fn law_repository_picked(
    before: TaskDraftOptions,
    after: TaskDraftOptions,
    repository_id: Id,
    other: Id,
)
    requires
        TaskDraftOptions::picks(before, after, repository_id),
        before.selected_repositories@.no_duplicates(),
    ensures
        after.selected_repositories@.contains(repository_id)
            <==> !before.selected_repositories@.contains(repository_id),
        other != repository_id ==> (after.selected_repositories@.contains(other)
            <==> before.selected_repositories@.contains(other)),
        after.availability is None,
        after.options(other) == before.options(other),
        after.branch_source == before.branch_source,
{
    crate::ids::law_toggle(before.selected_repositories@, repository_id, other);
}

/// A branch is checked where it has a name and a repository is chosen, in all that are
/// chosen and from the source that is; repositories are added or taken away where at
/// least one is chosen.
pub proof fn law_drafts_need_repositories(
    draft: TaskDraftOptions,
    detaching: DetachRepositoriesDraft,
    branch_name: Seq<char>,
    base: Seq<char>,
    commands: Seq<SetupCommand>,
    check: Option<BranchCheck>,
    addition: Option<AddTaskRepositoriesRequest>,
    removal: Option<RemoveTaskRepositoriesRequest>,
)
    requires
        draft.checks_branch(branch_name, base, check),
        draft.adds(base, commands, addition),
        detaching.detaches(removal),
    ensures
        check is Some <==> !is_blank(branch_name) && draft.selected_repositories@.len() > 0,
        check matches Some(check) ==> check.repository_ids@ == draft.selected_repositories@
            && check.branch_name@ == branch_name && check.branch_source == draft.branch_source,
        addition is Some <==> draft.selected_repositories@.len() > 0,
        addition matches Some(request) ==> request.repository_ids@ == draft.selected_repositories@
            && request.branch_source == draft.branch_source && request.create_missing_branch
            == draft.create_missing_branch && request.replace_divergent_local_branches
            == draft.replace_divergent_local_branches,
        removal is Some <==> detaching.selected_repositories@.len() > 0,
        removal matches Some(request) ==> request.repository_ids@
            == detaching.selected_repositories@ && request.delete_branch == detaching.delete_branch
            && request.discard_uncommitted_changes == detaching.discard_uncommitted_changes,
{
}

/// What a check of a branch found is told by the repository's name first. A base
/// is told only where the branch is not there yet, and that a branch is checked
/// out only where it is.
pub proof fn law_check_told(result: BranchAvailability, source: TaskBranchSource)
    ensures
        (result.repository_name@ + ": "@).is_prefix_of(creation_text(result, source)),
        result.base is None && !result.local_checked_out ==> creation_text(result, source)
            == result.repository_name@ + ": "@ + creation_state(result, source),
        source == TaskBranchSource::Remote && result.remote_revision is Some ==> base_note(
            result,
            source,
        ) == ""@ && creation_state(result, source) == "origin"@,
        source != TaskBranchSource::Remote && result.local_revision is Some ==> base_note(
            result,
            source,
        ) == ""@,
        (result.base matches Some(label) && source != TaskBranchSource::Remote
            && result.local_revision is None) ==> base_note(result, source) == " · from "@
            + result.base->0@,
        (result.base matches Some(label) && source == TaskBranchSource::Remote
            && result.remote_revision is None) ==> base_note(result, source) == " · from "@
            + result.base->0@,
{
    reveal_strlit("");
    let head = result.repository_name@ + ": "@;
    let whole = creation_text(result, source);
    assert(whole.subrange(0, head.len() as int) =~= head);
    assert(""@ =~= Seq::<char>::empty());
    if result.base is None && !result.local_checked_out {
        assert(whole =~= head + creation_state(result, source));
    }
}

} // verus!
