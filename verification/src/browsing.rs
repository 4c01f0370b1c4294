//! Moving around in the file explorer: what is opened, refreshed and shown.
use vstd::prelude::*;
use vstd::string::*;

use crate::app::{
    BlackholesApp, DirectoryListing, FileExplorerMode, FileExplorerState, RepositoryChangesState,
    Status,
};
use crate::collections::{PathMap, PathSet};
use crate::documents::flush_requests;
use crate::effects::Effect;
use crate::explorer::{closed_explorer, idle_feed, ExplorerModel};
use crate::labels::FileEntryKind;
use crate::model::{
    find_repository, find_task_repository, has_text, repository_at, task_repository_at,
};
use crate::paths::{
    components, contains_path, has_path, is_under, join, joined, lies_under, parent, parent_of,
    same_path,
};
use crate::text::join2;

verus! {

// ---------------------------------------------------------------------------
// Opening and closing
// ---------------------------------------------------------------------------
impl ExplorerModel {
    /// The explorer turned to another root: nothing of the former one is left,
    /// and a read of its changes that is under way no longer counts.
    pub open spec fn pointed_at(self, root: Seq<char>, root_label: Seq<char>) -> ExplorerModel {
        ExplorerModel {
            open: true,
            root: Some(root),
            root_label,
            expanded: Set::empty(),
            listings: Map::empty(),
            requests: Map::empty(),
            selected: None,
            changes: idle_feed(BlackholesApp::next(self.changes.request_id)),
            ..self
        }
    }
}

impl BlackholesApp {
    /// The directory and the name of the selected repository: in a task, its worktree.
    pub open spec fn repository_target(&self) -> Option<(String, String)> {
        match (self.workspace_selected(), self.session.selected_repository_id) {
            (Some(at), Some(repository_id)) => {
                let repositories = self.workspaces@[at].repositories@;
                match repository_at(repositories, repository_id) {
                    Some(found) => match self.task_selected() {
                        Some(task) => {
                            let worktrees = self.tasks@[task].repositories@;
                            match task_repository_at(worktrees, repository_id) {
                                Some(worktree) => Some(
                                    (worktrees[worktree].worktree_path, repositories[found].name),
                                ),
                                None => None,
                            }
                        },
                        None => Some((repositories[found].path, repositories[found].name)),
                    },
                    None => None,
                }
            },
            _ => None,
        }
    }

    /// The directory and the name of the selected repository.
    pub fn selected_repository_target(&self) -> (result: Option<(String, String)>)
        ensures
            result == self.repository_target(),
    {
        let at: usize = match self.selected_workspace() {
            Some(at) => at,
            None => {
                return None;
            },
        };
        let repository_id = match self.session.selected_repository_id {
            Some(repository_id) => repository_id,
            None => {
                return None;
            },
        };
        let repositories = &self.workspaces[at].repositories;
        let found: usize = match find_repository(repositories, repository_id) {
            Some(found) => found,
            None => {
                return None;
            },
        };
        match self.selected_task() {
            Some(task) => {
                let worktrees = &self.tasks[task].repositories;
                match find_task_repository(worktrees, repository_id) {
                    Some(worktree) => Some(
                        (
                            worktrees[worktree].worktree_path.clone(),
                            repositories[found].name.clone(),
                        ),
                    ),
                    None => None,
                }
            },
            None => Some((repositories[found].path.clone(), repositories[found].name.clone())),
        }
    }

    /// `after` is `before` with the explorer open on the root. On another root
    /// than before, the open document is saved and closed and the comparison goes.
    /// Changes are watched for from then on.
    pub open spec fn points_explorer(before: Self, after: Self, root: String, label: Seq<char>) -> bool {
        let changed = !before.file_explorer@.is_at(root@);
        &&& after.file_explorer@ == if changed {
            before.file_explorer@.pointed_at(root@, label)
        } else {
            ExplorerModel { open: true, root_label: label, ..before.file_explorer@ }
        }
        &&& after.file_explorer.root == if changed {
            Some(root)
        } else {
            before.file_explorer.root
        }
        &&& after.effects@ == before.effects@ + (if changed {
            flush_requests(before.active_file)
        } else {
            seq![]
        }) + (if changed || !before.file_explorer.open {
            seq![Effect::WatchFiles { root }]
        } else {
            seq![]
        })
        &&& after == (BlackholesApp {
            file_explorer: after.file_explorer,
            active_file: if changed {
                None
            } else {
                before.active_file
            },
            active_diff: if changed {
                None
            } else {
                before.active_diff
            },
            effects: after.effects,
            ..before
        })
    }

    fn point_explorer(&mut self, root: String, label: String)
        ensures
            Self::points_explorer(*old(self), *final(self), root, label@),
    {
        let ghost before = *self;
        let changed: bool = match &self.file_explorer.root {
            Some(current) => !same_path(current.as_str(), root.as_str()),
            None => true,
        };
        let was_open: bool = self.file_explorer.open;
        self.file_explorer.open = true;
        self.file_explorer.root_label = label;
        if changed {
            self.flush_active_file();
            self.active_file = None;
            self.active_diff = None;
            self.file_explorer.root = Some(root.clone());
            self.file_explorer.expanded = PathSet::new();
            self.file_explorer.directories = PathMap::new();
            self.file_explorer.requests = PathMap::new();
            self.file_explorer.selected = None;
            self.file_explorer.changes.state = RepositoryChangesState::Idle;
            self.file_explorer.changes.request_id =
            self.file_explorer.changes.request_id.wrapping_add(1);
            self.file_explorer.changes.in_flight = false;
            self.file_explorer.changes.refresh_pending = false;
            assert(self.file_explorer@ =~= before.file_explorer@.pointed_at(root@, label@));
        }
        let ghost flushed = *self;
        assert(flushed.effects@ =~= before.effects@ + (if changed {
            flush_requests(before.active_file)
        } else {
            seq![]
        }));
        if changed || !was_open {
            self.emit(Effect::WatchFiles { root });
        } else {
            assert(self.effects@ =~= flushed.effects@ + Seq::<Effect>::empty());
        }
    }

    /// `after` is `before` with the root listed, where it is not yet.
    pub open spec fn lists_root(before: Self, after: Self, root: String) -> bool {
        if before.file_explorer@.listing_at(root@) is None {
            Self::lists(before, after, root)
        } else {
            after == before
        }
    }

    /// `after` is `before` with the local changes asked for, where they are shown.
    pub open spec fn asks_if_shown(before: Self, after: Self) -> bool {
        if before.file_explorer.mode == FileExplorerMode::Changes {
            Self::asks_for_changes(before, after)
        } else {
            after == before
        }
    }

    /// `after` is `before` with the explorer open on the root, the root listed
    /// and the local changes read where they are shown.
    pub open spec fn opens_explorer(before: Self, after: Self, root: String, label: Seq<char>) -> bool {
        exists|pointed: BlackholesApp, listed: BlackholesApp, asked: BlackholesApp|
            {
                &&& #[trigger] Self::points_explorer(before, pointed, root, label)
                &&& #[trigger] Self::lists_root(pointed, listed, root)
                &&& #[trigger] Self::asks_if_shown(listed, asked)
                &&& Self::shows_workbench(asked, after)
            }
    }

    /// Opens the explorer on a root.
    pub fn open_file_explorer(&mut self, root: String, root_label: String)
        ensures
            Self::opens_explorer(*old(self), *final(self), root, root_label@),
    {
        let ghost before = *self;
        let ghost wanted = root;
        self.point_explorer(root.clone(), root_label);
        let ghost pointed = *self;
        if !self.file_explorer.directories.contains_key(root.as_str()) {
            self.request_directory(root);
        }
        let ghost listed = *self;
        if self.file_explorer.mode == FileExplorerMode::Changes {
            self.request_repository_changes();
        }
        let ghost asked = *self;
        self.show_workbench();
        assert(Self::points_explorer(before, pointed, wanted, root_label@));
        assert(Self::lists_root(pointed, listed, wanted));
        assert(Self::asks_if_shown(listed, asked));
    }

    /// Changes could not be watched for.
    pub fn file_watch_failed(&mut self, error: &str)
        ensures
            final(self).status matches Some(status) && status.error && status.message@
                == "File explorer live updates are unavailable; use refresh: "@ + error@,
            *final(self) == (BlackholesApp { status: final(self).status, ..*old(self) }),
    {
        self.status =
        Some(
            Status {
                message: join2("File explorer live updates are unavailable; use refresh: ", error),
                error: true,
            },
        );
    }

    /// `after` is `before` with the explorer on the selected repository, where
    /// one is selected.
    pub open spec fn follows_selection(before: Self, after: Self) -> bool {
        match before.repository_target() {
            Some((root, label)) => Self::opens_explorer(before, after, root, label@),
            None => after == before,
        }
    }

    /// Opens the explorer on the selected repository.
    pub fn sync_file_explorer_to_selection(&mut self)
        ensures
            Self::follows_selection(*old(self), *final(self)),
    {
        if let Some((root, label)) = self.selected_repository_target() {
            self.open_file_explorer(root, label);
        }
    }

    /// `after` is `before` with the explorer and the comparison closed, and with
    /// the history, the search and what else was read of the root forgotten.
    pub open spec fn closes_explorer(before: Self, after: Self) -> bool {
        &&& after.file_explorer@ == ExplorerModel::closed()
        &&& after.source_control.is_blank()
        &&& after.source_control.busy == before.source_control.busy
        &&& after.effects@ == before.effects@ + seq![Effect::StopWatching, Effect::Redraw]
        &&& after == (BlackholesApp {
            file_explorer: after.file_explorer,
            source_control: after.source_control,
            active_diff: None,
            effects: after.effects,
            ..before
        })
    }

    /// Closes the explorer.
    pub fn close_file_explorer(&mut self)
        ensures
            Self::closes_explorer(*old(self), *final(self)),
    {
        self.file_explorer = closed_explorer();
        self.source_control.forget_root();
        self.active_diff = None;
        self.emit(Effect::StopWatching);
        self.notify();
        assert(self.effects@ =~= old(self).effects@ + seq![Effect::StopWatching, Effect::Redraw]);
    }
}

// ---------------------------------------------------------------------------
// Refreshing
// ---------------------------------------------------------------------------
/// The paths are those of the set, each of them once.
pub open spec fn enumerates(order: Seq<String>, wanted: Set<Seq<Seq<char>>>) -> bool {
    &&& forall|place: Seq<Seq<char>>| #[trigger] has_path(order, place) <==> wanted.contains(place)
    &&& forall|i: int, j: int|
        0 <= i < j < order.len() ==> components((#[trigger] order[i])@) != components(
            (#[trigger] order[j])@,
        )
}

proof fn lemma_enumerates_push(order: Seq<String>, wanted: Set<Seq<Seq<char>>>, path: String)
    requires
        enumerates(order, wanted),
        !wanted.contains(components(path@)),
    ensures
        enumerates(order.push(path), wanted.insert(components(path@))),
{
    let longer = order.push(path);
    let added = components(path@);
    assert forall|p: Seq<Seq<char>>| #[trigger] has_path(longer, p) <==> wanted.insert(
        added,
    ).contains(p) by {
        if has_path(longer, p) {
            let i = choose|i: int| 0 <= i < longer.len() && components((#[trigger] longer[i])@) == p;
            if i < order.len() {
                assert(components(order[i]@) == p);
                assert(has_path(order, p));
            }
        }
        if wanted.contains(p) {
            assert(has_path(order, p));
            let i = choose|i: int| 0 <= i < order.len() && components((#[trigger] order[i])@) == p;
            assert(components(longer[i]@) == p);
        }
        if p == added {
            assert(components(longer[order.len() as int]@) == p);
        }
    }
    assert forall|i: int, j: int| 0 <= i < j < longer.len() implies components(
        (#[trigger] longer[i])@,
    ) != components((#[trigger] longer[j])@) by {
        if j == order.len() {
            assert(components(order[i]@) == components(longer[i]@));
            assert(has_path(order, components(longer[i]@)));
        }
    }
}

/// The directories of a set that lie under a root.
pub open spec fn those_under(
    directories: Set<Seq<Seq<char>>>,
    root: Seq<char>,
) -> Set<Seq<Seq<char>>> {
    Set::new(
        |place: Seq<Seq<char>>| directories.contains(place) && components(root).is_prefix_of(place),
    )
}

/// The directories in which something changed, of those that are shown.
pub open spec fn stale_directories(
    explorer: ExplorerModel,
    root: Seq<char>,
    changed: Seq<String>,
) -> Set<Seq<Seq<char>>> {
    Set::new(
        |directory: Seq<Seq<char>>|
            {
                &&& exists|i: int|
                    0 <= i < changed.len() && is_touched(#[trigger] changed[i], root, directory)
                &&& directory == components(root) || (explorer.expanded.contains(directory)
                    && explorer.listings.dom().contains(directory))
            },
    )
}

/// A change of the path changes what the directory lists.
pub open spec fn is_touched(changed: String, root: Seq<char>, directory: Seq<Seq<char>>) -> bool {
    ||| components(changed@) == components(root) && directory == components(root)
    ||| parent_of(changed@) matches Some(above) && components(above) == directory
}

/// The texts of stale directories are the root itself and the directories that
/// the changed paths are in.
pub open spec fn names_stale(order: Seq<String>, root: Seq<char>, changed: Seq<String>) -> bool {
    forall|i: int|
        0 <= i < order.len() ==> (#[trigger] order[i])@ == root || exists|j: int|
            0 <= j < changed.len() && parent_of((#[trigger] changed[j])@) == Some(order[i]@)
}

/// Every text stands in the list.
pub open spec fn all_among(order: Seq<String>, texts: Seq<String>) -> bool {
    forall|i: int| 0 <= i < order.len() ==> has_text(texts, (#[trigger] order[i])@)
}

fn directories_under(directories: &PathSet, root: &str) -> (result: Vec<String>)
    ensures
        enumerates(result@, those_under(directories@, root@)),
        all_among(result@, directories.items@),
{
    let mut result: Vec<String> = Vec::new();
    let mut index: usize = 0;
    let ghost mut found: Set<Seq<Seq<char>>> = Set::empty();
    while index < directories.items.len()
        invariant
            index <= directories.items@.len(),
            enumerates(result@, found),
            all_among(result@, directories.items@),
            forall|place: Seq<Seq<char>>| #[trigger]
                found.contains(place) <==> has_path(directories.items@.take(index as int), place)
                    && components(root@).is_prefix_of(place),
        decreases directories.items@.len() - index,
    {
        let item = &directories.items[index];
        let ghost before = directories.items@.take(index as int);
        let ghost after = directories.items@.take(index + 1);
        proof {
            assert(after =~= before.push(*item));
            assert(directories.items@[index as int]@ == item@);
            assert forall|place: Seq<Seq<char>>| #[trigger] has_path(after, place) <==> has_path(
                before,
                place,
            ) || place == components(item@) by {
                if has_path(after, place) {
                    let i = choose|i: int|
                        0 <= i < after.len() && components((#[trigger] after[i])@) == place;
                    if i < before.len() {
                        assert(components(before[i]@) == place);
                    }
                }
                if has_path(before, place) {
                    let i = choose|i: int|
                        0 <= i < before.len() && components((#[trigger] before[i])@) == place;
                    assert(components(after[i]@) == place);
                }
                if place == components(item@) {
                    assert(components(after[before.len() as int]@) == place);
                }
            }
        }
        if lies_under(item.as_str(), root) && !contains_path(&result, item.as_str()) {
            proof {
                lemma_enumerates_push(result@, found, *item);
                found = found.insert(components(item@));
            }
            result.push(item.clone());
        }
        index += 1;
    }
    proof {
        assert(directories.items@.take(index as int) =~= directories.items@);
        assert(found =~= those_under(directories@, root@));
    }
    result
}

impl BlackholesApp {
    /// `after` is `before` with the directories listed, one after the other.
    pub open spec fn lists_all(before: Self, after: Self, paths: Seq<String>) -> bool
        decreases paths.len(),
    {
        if paths.len() == 0 {
            after == before
        } else {
            exists|middle: BlackholesApp|
                Self::lists_all(before, middle, paths.drop_last()) && #[trigger] Self::lists(
                    middle,
                    after,
                    paths.last(),
                )
        }
    }

    fn request_directories(&mut self, paths: Vec<String>)
        ensures
            Self::lists_all(*old(self), *final(self), paths@),
    {
        let ghost before = *self;
        let ghost wanted = paths@;
        let mut rest: Vec<String> = paths;
        while rest.len() > 0
            invariant
                rest@.len() <= wanted.len(),
                rest@ == wanted.skip(wanted.len() - rest@.len()),
                Self::lists_all(before, *self, wanted.take(wanted.len() - rest@.len())),
            decreases rest@.len(),
        {
            let ghost done = wanted.len() - rest@.len();
            let ghost middle = *self;
            let path = rest.remove(0);
            assert(path == wanted[done]);
            self.request_directory(path);
            proof {
                assert(Self::lists(middle, *self, wanted.take(done + 1).last()));
                assert(rest@ =~= wanted.skip(done + 1));
                assert(wanted.take(done + 1).drop_last() =~= wanted.take(done));
                assert(wanted.take(done + 1).last() == wanted[done]);
                assert(Self::lists_all(before, middle, wanted.take(done + 1).drop_last()));
            }
        }
        assert(wanted.take(wanted.len() as int) =~= wanted);
    }

    /// `after` is `before` with the root and every expanded directory listed
    /// again, where the explorer is open on the root.
    pub open spec fn refreshes_listings(before: Self, after: Self, root: Seq<char>) -> bool {
        if before.file_explorer.open && before.file_explorer@.is_at(root) {
            exists|first: String, order: Seq<String>|
                {
                    &&& first@ == root
                    &&& enumerates(order, those_under(before.file_explorer@.expanded, root))
                    &&& all_among(order, before.file_explorer.expanded.items@)
                    &&& #[trigger] Self::lists_all(before, after, seq![first] + order)
                }
        } else {
            after == before
        }
    }

    /// Lists the root and the expanded directories again.
    pub fn refresh_file_explorer_if_root(&mut self, root: &str)
        ensures
            Self::refreshes_listings(*old(self), *final(self), root@),
    {
        if !self.file_explorer.open {
            return ;
        }
        let current = match &self.file_explorer.root {
            Some(current) => {
                if !same_path(current.as_str(), root) {
                    return ;
                }
                root.to_string()
            },
            None => {
                return ;
            },
        };
        let ghost before = *self;
        let mut order = directories_under(&self.file_explorer.expanded, root);
        let ghost expanded = order@;
        let ghost first = current;
        order.insert(0, current);
        assert(order@ =~= seq![first] + expanded);
        self.request_directories(order);
        assert(Self::lists_all(before, *self, seq![first] + expanded));
    }

    /// `after` is `before` with everything that the explorer shows read again.
    pub open spec fn refreshes_explorer(before: Self, after: Self) -> bool {
        match before.file_explorer.root {
            None => after == before,
            Some(root) => exists|refreshed: BlackholesApp| #[trigger]
                Self::rereads_explorer(before, refreshed) && Self::requests(
                    refreshed,
                    after,
                    seq![Effect::InspectPath { path: root }],
                ),
        }
    }

    /// `after` is `before` with the listings, or the changes and the comparison,
    /// read again.
    pub open spec fn rereads_explorer(before: Self, after: Self) -> bool {
        if before.file_explorer.mode == FileExplorerMode::Files {
            Self::refreshes_listings(before, after, before.explorer_root()@)
        } else {
            exists|asked: BlackholesApp| #[trigger]
                Self::asks_for_changes(before, asked) && Self::refreshes_diff(asked, after)
        }
    }

    /// Reads everything that the explorer shows again.
    pub fn refresh_file_explorer(&mut self)
        ensures
            Self::refreshes_explorer(*old(self), *final(self)),
    {
        let root = match &self.file_explorer.root {
            Some(root) => root.clone(),
            None => {
                return ;
            },
        };
        let ghost before = *self;
        if self.file_explorer.mode == FileExplorerMode::Files {
            self.refresh_file_explorer_if_root(root.as_str());
        } else {
            self.request_repository_changes();
            self.refresh_active_repository_diff();
        }
        assert(Self::rereads_explorer(before, *self));
        self.emit(Effect::InspectPath { path: root });
    }
}

// ---------------------------------------------------------------------------
// Changes on disk
// ---------------------------------------------------------------------------
/// How many changed paths a batch holds at most.
pub const FILE_WATCH_BATCH_PATH_LIMIT: usize = 2048;

/// The paths that changed since the last refresh.
#[derive(Debug)]
pub struct FileWatchBatch {
    pub paths: PathSet,
}

/// The path belongs to the repository's own records.
pub open spec fn is_git_path(root: Seq<char>, path: Seq<char>) -> bool {
    is_under(path, git_directory(root))
}

pub open spec fn git_directory(root: Seq<char>) -> Seq<char> {
    joined(root, ".git"@)
}

/// What a batch holds after the first paths of an event, and whether they
/// brought anything new. A batch that reaches its limit stands for the root.
pub open spec fn batch_after(
    batch: Seq<String>,
    root: String,
    paths: Seq<String>,
    count: int,
) -> (Seq<String>, bool, bool)
    decreases count,
{
    if count <= 0 {
        (batch, false, false)
    } else {
        let (items, relevant, full) = batch_after(batch, root, paths, count - 1);
        let path = paths[count - 1];
        if full || is_git_path(root@, path@) {
            (items, relevant, full)
        } else {
            let added = !has_path(items, components(path@));
            let more = if added {
                items.push(path)
            } else {
                items
            };
            if more.len() >= FILE_WATCH_BATCH_PATH_LIMIT {
                (seq![root], true, true)
            } else {
                (more, relevant || added, false)
            }
        }
    }
}

impl FileWatchBatch {
    pub fn new() -> (result: FileWatchBatch)
        ensures
            result.paths.items@.len() == 0,
    {
        FileWatchBatch { paths: PathSet::new() }
    }

    /// Adds the paths of an event; whether the explorer has to look again.
    pub fn record(&mut self, root: &String, paths: Vec<String>) -> (relevant: bool)
        requires
            old(self).paths.items@.len() < FILE_WATCH_BATCH_PATH_LIMIT,
        ensures
            final(self).paths.items@.len() < FILE_WATCH_BATCH_PATH_LIMIT,
            ({
                let (items, changed, _) = batch_after(
                    old(self).paths.items@,
                    *root,
                    paths@,
                    paths@.len() as int,
                );
                final(self).paths.items@ == items && relevant == changed
            }),
    {
        let git = join(root.as_str(), ".git");
        let ghost before = self.paths.items@;
        let ghost wanted = paths@;
        let mut rest: Vec<String> = paths;
        let mut relevant: bool = false;
        let mut full: bool = false;
        while rest.len() > 0
            invariant
                git@ == git_directory(root@),
                rest@.len() <= wanted.len(),
                rest@ == wanted.skip(wanted.len() - rest@.len()),
                batch_after(before, *root, wanted, wanted.len() - rest@.len()) == (
                    self.paths.items@,
                    relevant,
                    full,
                ),
                self.paths.items@.len() < FILE_WATCH_BATCH_PATH_LIMIT,
            decreases rest@.len(),
        {
            let ghost done = wanted.len() - rest@.len();
            let path = rest.remove(0);
            assert(rest@ =~= wanted.skip(done + 1));
            assert(path == wanted[done]);
            if !full && !lies_under(path.as_str(), git.as_str()) {
                if self.paths.insert(path) {
                    relevant = true;
                }
                if self.paths.items.len() >= FILE_WATCH_BATCH_PATH_LIMIT {
                    self.paths = PathSet::new();
                    let _ = self.paths.insert(root.clone());
                    assert(self.paths.items@ =~= seq![*root]);
                    relevant = true;
                    full = true;
                }
            }
        }
        relevant
    }

    /// Takes the paths out of the batch.
    pub fn drain(&mut self) -> (result: Vec<String>)
        ensures
            result@ == old(self).paths.items@,
            final(self).paths.items@.len() == 0,
    {
        let mut taken: Vec<String> = Vec::new();
        std::mem::swap(&mut taken, &mut self.paths.items);
        taken
    }
}

impl BlackholesApp {
    /// The stale directories, the root first.
    fn find_stale_directories(&self, root: &str, changed: &Vec<String>) -> (result: Vec<String>)
        ensures
            enumerates(result@, stale_directories(self.file_explorer@, root@, changed@)),
            names_stale(result@, root@, changed@),
            stale_directories(self.file_explorer@, root@, changed@).contains(components(root@))
                ==> result@[0]@ == root@,
    {
        let ghost stale = stale_directories(self.file_explorer@, root@, changed@);
        let mut result: Vec<String> = Vec::new();
        let mut root_stale: bool = false;
        let mut index: usize = 0;
        while index < changed.len()
            invariant
                index <= changed@.len(),
                root_stale <==> exists|i: int|
                    0 <= i < index && is_touched(#[trigger] changed@[i], root@, components(root@)),
            decreases changed@.len() - index,
        {
            let path = changed[index].as_str();
            let in_root: bool = match parent(path) {
                Some(directory) => same_path(directory.as_str(), root),
                None => false,
            };
            if in_root || same_path(path, root) {
                assert(is_touched(changed@[index as int], root@, components(root@)));
                root_stale = true;
            }
            index += 1;
        }
        let ghost mut found: Set<Seq<Seq<char>>> = Set::empty();
        if root_stale {
            proof {
                assert(enumerates(result@, found));
                assert(stale.contains(components(root@)));
                found = found.insert(components(root@));
            }
            let first = root.to_string();
            proof {
                lemma_enumerates_push(Seq::<String>::empty(), Set::empty(), first);
                assert(result@ =~= Seq::<String>::empty());
            }
            result.push(first);
        }
        assert(enumerates(result@, found));
        index = 0;
        while index < changed.len()
            invariant
                index <= changed@.len(),
                stale == stale_directories(self.file_explorer@, root@, changed@),
                enumerates(result@, found),
                names_stale(result@, root@, changed@),
                stale.contains(components(root@)) <==> root_stale,
                root_stale ==> result@.len() > 0 && result@[0]@ == root@,
                forall|directory: Seq<Seq<char>>| #[trigger]
                    found.contains(directory) <==> stale.contains(directory) && (directory
                        == components(root@)
                        || exists|i: int|
                        0 <= i < index && is_touched(#[trigger] changed@[i], root@, directory)),
            decreases changed@.len() - index,
        {
            let ghost before = found;
            if let Some(directory) = parent(changed[index].as_str()) {
                assert(is_touched(changed@[index as int], root@, components(directory@)));
                if !same_path(directory.as_str(), root) && self.file_explorer.expanded.contains(
                    directory.as_str(),
                ) && self.file_explorer.directories.contains_key(directory.as_str())
                    && !contains_path(&result, directory.as_str()) {
                    proof {
                        assert(stale.contains(components(directory@)));
                        assert(parent_of(changed@[index as int]@) == Some(directory@));
                        lemma_enumerates_push(result@, found, directory);
                        found = found.insert(components(directory@));
                    }
                    result.push(directory);
                }
            }
            index += 1;
            proof {
                assert forall|directory: Seq<Seq<char>>| #[trigger]
                    found.contains(directory) <==> stale.contains(directory) && (directory
                        == components(root@)
                        || exists|i: int|
                        0 <= i < index && is_touched(
                            #[trigger] changed@[i],
                            root@,
                            directory,
                        )) by {
                    if before.contains(directory) && directory != components(root@) {
                        let i = choose|i: int|
                            0 <= i < index - 1 && is_touched(
                                #[trigger] changed@[i],
                                root@,
                                directory,
                            );
                        assert(is_touched(changed@[i], root@, directory));
                    }
                }
            }
        }
        assert(found =~= stale);
        result
    }

    /// `after` is `before` with what changed on disk read again: the changes and
    /// the open comparison, or the directories that are shown, the root first.
    pub open spec fn follows_disk(before: Self, after: Self, root: Seq<char>, changed: Seq<String>) -> bool {
        if !before.file_explorer.open || !before.file_explorer@.is_at(root) {
            after == before
        } else if before.file_explorer.mode == FileExplorerMode::Changes {
            exists|asked: BlackholesApp| #[trigger]
                Self::asks_for_changes(before, asked) && if before.active_diff matches Some(diff)
                    && (has_path(changed, components(diff.change.path@)) || has_path(
                    changed,
                    components(root),
                )) {
                    Self::refreshes_diff(asked, after)
                } else {
                    after == asked
                }
        } else {
            let stale = stale_directories(before.file_explorer@, root, changed);
            exists|order: Seq<String>|
                {
                    &&& enumerates(order, stale)
                    &&& names_stale(order, root, changed)
                    &&& stale.contains(components(root)) ==> order[0]@ == root
                    &&& #[trigger] Self::lists_all(before, after, order)
                }
        }
    }

    /// Something changed on disk.
    pub fn refresh_changed_file_directories(&mut self, root: &str, changed_paths: Vec<String>)
        ensures
            Self::follows_disk(*old(self), *final(self), root@, changed_paths@),
    {
        if !self.file_explorer.open {
            return ;
        }
        let current: bool = match &self.file_explorer.root {
            Some(current) => same_path(current.as_str(), root),
            None => false,
        };
        if !current {
            return ;
        }
        if self.file_explorer.mode == FileExplorerMode::Changes {
            self.request_repository_changes();
            let compared: bool = match &self.active_diff {
                Some(diff) => contains_path(&changed_paths, diff.change.path.as_str()) || contains_path(
                    &changed_paths,
                    root,
                ),
                None => false,
            };
            if compared {
                self.refresh_active_repository_diff();
            }
            return ;
        }
        let stale = self.find_stale_directories(root, &changed_paths);
        self.request_directories(stale);
    }
}

// ---------------------------------------------------------------------------
// What is shown
// ---------------------------------------------------------------------------
impl BlackholesApp {
    /// `after` is `before` with the other side of the explorer chosen: the page
    /// that is shown goes, and so does the comparison where files are shown.
    pub open spec fn switches_mode(before: Self, after: Self, mode: FileExplorerMode) -> bool {
        let changes = mode == FileExplorerMode::Changes;
        &&& after.effects@ == before.effects@ + if changes {
            flush_requests(before.active_file)
        } else {
            seq![]
        }
        &&& after == (BlackholesApp {
            active_file: if changes {
                crate::documents::flushed(before.active_file)
            } else {
                before.active_file
            },
            active_diff: if changes {
                before.active_diff
            } else {
                None
            },
            file_explorer: FileExplorerState { mode, ..before.file_explorer },
            surface: before.surface.plain(),
            effects: after.effects,
            ..before
        })
    }

    /// `after` is `before` with the side of the explorer that is shown read.
    pub open spec fn reads_mode(before: Self, after: Self) -> bool {
        if before.file_explorer.mode == FileExplorerMode::Changes {
            Self::asks_for_changes(before, after)
        } else {
            match before.file_explorer.root {
                Some(root) => Self::refreshes_listings(before, after, root@),
                None => after == before,
            }
        }
    }

    /// `after` is `before` with a side of the explorer shown. Choosing the files
    /// again only closes the comparison.
    pub open spec fn sets_mode(before: Self, after: Self, mode: FileExplorerMode) -> bool {
        if before.file_explorer.mode == mode {
            if mode == FileExplorerMode::Files && before.active_diff is Some {
                Self::closes_diff(before, after)
            } else {
                after == before
            }
        } else {
            exists|switched: BlackholesApp, read: BlackholesApp| #[trigger]
                Self::switches_mode(before, switched, mode) && #[trigger] Self::reads_mode(
                    switched,
                    read,
                ) && Self::shows_workbench(read, after)
        }
    }

    /// Shows the files or the local changes.
    pub fn set_file_explorer_mode(&mut self, mode: FileExplorerMode)
        ensures
            Self::sets_mode(*old(self), *final(self), mode),
    {
        let ghost before = *self;
        if self.file_explorer.mode == mode {
            if mode == FileExplorerMode::Files && self.active_diff.is_some() {
                self.close_repository_diff();
            }
            return ;
        }
        if mode == FileExplorerMode::Changes {
            self.flush_active_file();
        } else {
            self.active_diff = None;
        }
        self.file_explorer.mode = mode;
        self.surface.clear();
        let ghost switched = *self;
        assert(switched.effects@ =~= before.effects@ + if mode == FileExplorerMode::Changes {
            flush_requests(before.active_file)
        } else {
            seq![]
        });
        assert(Self::switches_mode(before, switched, mode));
        if mode == FileExplorerMode::Changes {
            self.request_repository_changes();
        } else {
            let root: Option<String> = match &self.file_explorer.root {
                Some(root) => Some(root.clone()),
                None => None,
            };
            if let Some(root) = root {
                self.refresh_file_explorer_if_root(root.as_str());
            }
        }
        assert(Self::reads_mode(switched, *self));
        self.show_workbench();
    }

    /// The state with a row of the explorer selected.
    pub open spec fn with_row_selected(self, path: String) -> Self {
        BlackholesApp {
            file_explorer: FileExplorerState { selected: Some(path), ..self.file_explorer },
            ..self
        }
    }

    /// `after` is `before` with the expanded directories set.
    pub open spec fn expands_to(before: Self, after: Self, expanded: Set<Seq<Seq<char>>>) -> bool {
        &&& after.file_explorer.expanded@ == expanded
        &&& after == (BlackholesApp {
            file_explorer: FileExplorerState {
                expanded: after.file_explorer.expanded,
                ..before.file_explorer
            },
            ..before
        })
    }

    /// `after` is `before` with the directory listed, where neither a listing
    /// nor a request for one is there.
    pub open spec fn lists_if_missing(before: Self, after: Self, path: String) -> bool {
        let listings = before.file_explorer@.listings;
        if listings.dom().contains(components(path@)) && listings[components(path@)] !is Error {
            after == before
        } else {
            Self::lists(before, after, path)
        }
    }

    /// `after` is `before` with a row of the explorer activated: a directory is
    /// expanded or collapsed, except by the second click of a double click; a
    /// file is opened.
    pub open spec fn activates_row(
        before: Self,
        after: Self,
        path: String,
        kind: FileEntryKind,
        click_count: usize,
    ) -> bool {
        let chosen = before.with_row_selected(path);
        let expanded = before.file_explorer@.expanded;
        if kind != FileEntryKind::Directory {
            Self::opens_file(chosen, after, path)
        } else if click_count > 1 {
            Self::shows_workbench(chosen, after)
        } else if expanded.contains(components(path@)) {
            exists|collapsed: BlackholesApp| #[trigger]
                Self::expands_to(chosen, collapsed, expanded.remove(components(path@)))
                    && Self::shows_workbench(collapsed, after)
        } else {
            exists|grown: BlackholesApp, listed: BlackholesApp| #[trigger]
                Self::expands_to(chosen, grown, expanded.insert(components(path@))) && #[trigger]
                Self::lists_if_missing(grown, listed, path) && Self::shows_workbench(listed, after)
        }
    }

    /// A row of the explorer is activated.
    pub fn activate_file_tree_row(&mut self, path: String, kind: FileEntryKind, click_count: usize)
        ensures
            Self::activates_row(*old(self), *final(self), path, kind, click_count),
    {
        let ghost before = *self;
        self.file_explorer.selected = Some(path.clone());
        let ghost chosen = *self;
        assert(chosen == before.with_row_selected(path));
        if kind != FileEntryKind::Directory {
            self.open_file_in_editor(path);
            return ;
        }
        if click_count > 1 {
            self.show_workbench();
            return ;
        }
        if self.file_explorer.expanded.contains(path.as_str()) {
            let _ = self.file_explorer.expanded.remove(path.as_str());
            assert(Self::expands_to(
                chosen,
                *self,
                before.file_explorer@.expanded.remove(components(path@)),
            ));
            self.show_workbench();
            return ;
        }
        let ghost wanted = path;
        let _ = self.file_explorer.expanded.insert(path.clone());
        let ghost grown = *self;
        assert(Self::expands_to(chosen, grown, before.file_explorer@.expanded.insert(components(path@))));
        let missing: bool = match self.file_explorer.directories.get(path.as_str()) {
            Some(DirectoryListing::Loaded(_)) => false,
            Some(DirectoryListing::Loading) => false,
            _ => true,
        };
        if missing {
            self.request_directory(path);
        }
        assert(Self::lists_if_missing(grown, *self, wanted));
        self.show_workbench();
    }
}

/// A double click on a directory does what a single one does: the second click
/// does not undo the first.
pub proof fn law_double_click(
    before: BlackholesApp,
    once: BlackholesApp,
    twice: BlackholesApp,
    path: String,
)
    requires
        BlackholesApp::activates_row(before, once, path, FileEntryKind::Directory, 1),
        BlackholesApp::activates_row(once, twice, path, FileEntryKind::Directory, 2),
    ensures
        once.file_explorer@.expanded.contains(components(path@))
            == !before.file_explorer@.expanded.contains(components(path@)),
        twice.file_explorer@.expanded == once.file_explorer@.expanded,
{
}

// ---------------------------------------------------------------------------
// What browsing leads to
// ---------------------------------------------------------------------------
/// Opening the explorer shows the root under its label. On another root than before
/// nothing of the former one is left: no listing, selection, file or comparison; what
/// was typed is handed over for saving. On the same root all of that stays. The root
/// has a listing, or one is asked for, and a root that was not shown before is
/// watched.
pub proof fn law_explorer_opened(before: BlackholesApp, after: BlackholesApp, root: String, label: Seq<char>)
    requires
        BlackholesApp::opens_explorer(before, after, root, label),
    ensures
        after.file_explorer.open,
        after.file_explorer.root_label@ == label,
        after.file_explorer.root matches Some(open) && components(open@) == components(root@),
        after.file_explorer@.listing_at(root@) is Some,
        after.file_explorer.mode == before.file_explorer.mode,
        ({
            let same = before.file_explorer.root matches Some(open) && components(open@)
                == components(root@);
            &&& same ==> {
                &&& after.active_file == before.active_file
                &&& after.active_diff == before.active_diff
                &&& after.file_explorer@.expanded == before.file_explorer@.expanded
                &&& after.file_explorer@.selected == before.file_explorer@.selected
            }
            &&& !same ==> {
                &&& after.active_file is None
                &&& after.active_diff is None
                &&& after.file_explorer@.expanded == Set::<Seq<Seq<char>>>::empty()
                &&& after.file_explorer@.selected is None
                &&& forall|path: Seq<char>|
                    components(path) != components(root@) ==> (
                    #[trigger] after.file_explorer@.listing_at(path)) is None
                &&& (before.active_file matches Some(file) && file.dirty && file.editor is Some)
                    ==> crate::documents::saves_text(
                    after.effects@[before.effects@.len() as int],
                    before.active_file->0,
                )
            }
            &&& !same || !before.file_explorer.open ==> BlackholesApp::asked(before, after).contains(
                Effect::WatchFiles { root },
            )
            &&& !same ==> exists|i: int|
                before.effects@.len() <= i < after.effects@.len() && (
                #[trigger] after.effects@[i] matches Effect::ReadDirectory {
                    root: of,
                    path,
                    request_id,
                } && path == root && of == root && request_id
                    == after.file_explorer.next_request_id)
        }),
        after.file_explorer.mode == FileExplorerMode::Changes ==> after.file_explorer.changes.in_flight,
{
    let (pointed, listed, asked) = choose|
        pointed: BlackholesApp,
        listed: BlackholesApp,
        asked: BlackholesApp,
    |
        {
            &&& #[trigger] BlackholesApp::points_explorer(before, pointed, root, label)
            &&& #[trigger] BlackholesApp::lists_root(pointed, listed, root)
            &&& #[trigger] BlackholesApp::asks_if_shown(listed, asked)
            &&& BlackholesApp::shows_workbench(asked, after)
        };
    let changed = !before.file_explorer@.is_at(root@);
    let start = before.effects@.len() as int;
    let flush = flush_requests(before.active_file);
    assert(components(root@).is_prefix_of(components(root@)));
    if changed || !before.file_explorer.open {
        let at = pointed.effects@.len() - 1;
        assert(pointed.effects@[at] == (Effect::WatchFiles { root }));
        assert(after.effects@[at] == (Effect::WatchFiles { root }));
        assert(BlackholesApp::asked(before, after)[at - start] == after.effects@[at]);
    }
    if changed {
        let at = pointed.effects@.len() as int;
        assert(listed.effects@[at] is ReadDirectory);
        assert(after.effects@[at] is ReadDirectory);
        if flush.len() > 0 {
            assert(after.effects@[start] == flush[0]);
        }
    }
}

/// Closing the explorer leaves nothing open in it and nothing watched.
pub proof fn law_explorer_closed(before: BlackholesApp, after: BlackholesApp)
    requires
        BlackholesApp::closes_explorer(before, after),
    ensures
        !after.file_explorer.open,
        after.file_explorer.root is None,
        after.file_explorer.selected is None,
        after.file_explorer@.expanded == Set::<Seq<Seq<char>>>::empty(),
        forall|path: Seq<char>| (#[trigger] after.file_explorer@.listing_at(path)) is None,
        after.active_diff is None,
        after.active_file == before.active_file,
        after.source_control.history.snapshot is None,
        !after.source_control.history.loading,
        !after.source_control.history.watching,
        after.source_control.search.options is None,
        after.source_control.search.result is None,
        after.source_control.reveal is None,
        after.source_control.scm_info is None,
        after.source_control.busy == before.source_control.busy,
        BlackholesApp::asked(before, after).contains(Effect::StopWatching),
        after.session == before.session,
{
    assert(BlackholesApp::asked(before, after)[0] == Effect::StopWatching);
}

/// The side of the explorer that is chosen is shown. Going to the files closes the
/// comparison; going to the changes reads them, and what was typed is handed over for
/// saving first. A page that was in front goes.
pub proof fn law_explorer_side(before: BlackholesApp, after: BlackholesApp, mode: FileExplorerMode)
    requires
        BlackholesApp::sets_mode(before, after, mode),
    ensures
        after.file_explorer.mode == mode,
        mode == FileExplorerMode::Files ==> after.active_diff is None,
        mode == FileExplorerMode::Changes ==> after.active_diff == before.active_diff,
        mode == FileExplorerMode::Changes && before.file_explorer.mode != mode
            && before.file_explorer.root is Some ==> after.file_explorer.changes.in_flight,
        mode == FileExplorerMode::Changes && before.file_explorer.mode != mode && (
        before.active_file matches Some(file) && file.dirty && file.editor is Some)
            ==> crate::documents::saves_text(
            after.effects@[before.effects@.len() as int],
            before.active_file->0,
        ),
        mode == FileExplorerMode::Files && before.file_explorer.mode != mode
            && before.file_explorer.open && before.file_explorer.root is Some
            ==> after.file_explorer@.requests.dom().contains(
            components(before.file_explorer.root->0@),
        ),
        before.file_explorer.mode != mode ==> !after.surface.show_terminal
            && !after.surface.show_settings && !after.surface.show_task_details
            && !after.surface.show_project_overview,
        after.file_explorer@.expanded == before.file_explorer@.expanded,
        after.file_explorer.root == before.file_explorer.root,
{
    if before.file_explorer.mode != mode {
        let (switched, read) = choose|switched: BlackholesApp, read: BlackholesApp| #[trigger]
            BlackholesApp::switches_mode(before, switched, mode) && #[trigger]
            BlackholesApp::reads_mode(switched, read) && BlackholesApp::shows_workbench(read, after);
        if mode == FileExplorerMode::Changes {
            let flush = flush_requests(before.active_file);
            if flush.len() > 0 {
                assert(after.effects@[before.effects@.len() as int] == flush[0]);
            }
        } else if before.file_explorer.root is Some && before.file_explorer.open {
            let root = before.file_explorer.root->0@;
            let (first, order) = choose|first: String, order: Seq<String>|
                {
                    &&& first@ == root
                    &&& enumerates(order, those_under(switched.file_explorer@.expanded, root))
                    &&& all_among(order, switched.file_explorer.expanded.items@)
                    &&& #[trigger] BlackholesApp::lists_all(switched, read, seq![first] + order)
                };
            lemma_all_requested(switched, read, seq![first] + order);
            assert((seq![first] + order)[0] == first);
            assert(components(root).is_prefix_of(components(root)));
        } else if before.file_explorer.root is Some {
            assert(read == switched);
        }
    }
}

/// Directories that are listed one after the other are all asked for, where they lie
/// under the root; nothing else of the explorer changes.
proof fn lemma_all_requested(before: BlackholesApp, after: BlackholesApp, paths: Seq<String>)
    requires
        BlackholesApp::lists_all(before, after, paths),
    ensures
        after.file_explorer.root == before.file_explorer.root,
        after.file_explorer.mode == before.file_explorer.mode,
        after.file_explorer.open == before.file_explorer.open,
        after.file_explorer@.expanded == before.file_explorer@.expanded,
        after.surface == before.surface,
        after.active_diff == before.active_diff,
        after.active_file == before.active_file,
        after.file_explorer.changes == before.file_explorer.changes,
        forall|place: Seq<Seq<char>>|
            before.file_explorer@.requests.dom().contains(place)
                ==> #[trigger] after.file_explorer@.requests.dom().contains(place),
        forall|i: int|
            0 <= i < paths.len() && before.can_list((#[trigger] paths[i])@)
                ==> after.file_explorer@.requests.dom().contains(components(paths[i]@)),
    decreases paths.len(),
{
    if paths.len() > 0 {
        let middle = choose|middle: BlackholesApp|
            BlackholesApp::lists_all(before, middle, paths.drop_last()) && #[trigger]
            BlackholesApp::lists(middle, after, paths.last());
        lemma_all_requested(before, middle, paths.drop_last());
        assert forall|i: int| 0 <= i < paths.len() && before.can_list((#[trigger] paths[i])@) implies
            after.file_explorer@.requests.dom().contains(components(paths[i]@)) by {
            if i < paths.len() - 1 {
                assert(paths.drop_last()[i] == paths[i]);
            }
        }
    }
}

/// A change on disk is followed: with the files shown, the directory that the changed
/// path is in is read again where it is the root, or expanded and listed; with the
/// changes shown, they are read again, and so is the comparison of the changed file.
pub proof fn law_disk_followed(
    before: BlackholesApp,
    after: BlackholesApp,
    root: Seq<char>,
    changed: Seq<String>,
    at: int,
    directory: Seq<char>,
)
    requires
        BlackholesApp::follows_disk(before, after, root, changed),
        before.file_explorer.open,
        before.file_explorer.root matches Some(open) && components(open@) == components(root),
        0 <= at < changed.len(),
        parent_of(changed[at]@) == Some(directory),
        components(root).is_prefix_of(components(directory)),
    ensures
        before.file_explorer.mode == FileExplorerMode::Files && (components(directory) == components(
            root,
        ) || (before.file_explorer@.expanded.contains(components(directory))
            && before.file_explorer@.listing_at(directory) is Some))
            ==> after.file_explorer@.requests.dom().contains(components(directory)),
        before.file_explorer.mode == FileExplorerMode::Changes
            ==> after.file_explorer.changes.in_flight,
        before.file_explorer.mode == FileExplorerMode::Changes && (
        before.active_diff matches Some(diff) && components(diff.change.path@) == components(
            changed[at]@,
        )) ==> (after.active_diff matches Some(diff) && diff.request_in_flight && diff.change
            == before.active_diff->0.change),
        after.file_explorer@.expanded == before.file_explorer@.expanded,
        after.active_file == before.active_file,
{
    if before.file_explorer.mode == FileExplorerMode::Files {
        let stale = stale_directories(before.file_explorer@, root, changed);
        let order = choose|order: Seq<String>|
            {
                &&& enumerates(order, stale)
                &&& names_stale(order, root, changed)
                &&& stale.contains(components(root)) ==> order[0]@ == root
                &&& #[trigger] BlackholesApp::lists_all(before, after, order)
            };
        lemma_all_requested(before, after, order);
        assert(is_touched(changed[at], root, components(directory)));
        if stale.contains(components(directory)) {
            assert(has_path(order, components(directory)));
            let i = choose|i: int|
                0 <= i < order.len() && components((#[trigger] order[i])@) == components(directory);
            assert(before.can_list(order[i]@));
        }
    } else {
        assert(components(changed[at]@) == components(changed[at]@));
        if let Some(diff) = before.active_diff {
            if components(diff.change.path@) == components(changed[at]@) {
                assert(has_path(changed, components(diff.change.path@)));
            }
        }
    }
}

/// A row that is activated is the selected one. That of a file opens it; that of a
/// directory turns it over, expanded or not, and no other directory; and one that is
/// expanded has a listing, or one is asked for.
pub proof fn law_row_activated(
    before: BlackholesApp,
    after: BlackholesApp,
    path: String,
    kind: FileEntryKind,
    click_count: usize,
    other: Seq<Seq<char>>,
)
    requires
        BlackholesApp::activates_row(before, after, path, kind, click_count),
        before.file_explorer.root matches Some(root) && components(root@).is_prefix_of(
            components(path@),
        ),
        other != components(path@),
    ensures
        after.file_explorer.selected == Some(path),
        kind != FileEntryKind::Directory ==> {
            &&& after.active_file matches Some(file) && components(file.path@) == components(path@)
            &&& after.active_diff is None
            &&& after.file_explorer@.expanded == before.file_explorer@.expanded
        },
        kind == FileEntryKind::Directory ==> after.active_file == before.active_file
            && after.active_diff == before.active_diff,
        kind == FileEntryKind::Directory && click_count <= 1 ==> (
        after.file_explorer@.expanded.contains(components(path@)) <==> !before.file_explorer@.expanded.contains(
            components(path@),
        )),
        kind == FileEntryKind::Directory && click_count > 1 ==> after.file_explorer@.expanded
            == before.file_explorer@.expanded,
        after.file_explorer@.expanded.contains(other) <==> before.file_explorer@.expanded.contains(
            other,
        ),
        kind == FileEntryKind::Directory && click_count <= 1
            && !before.file_explorer@.expanded.contains(components(path@))
            ==> after.file_explorer@.listing_at(path@) is Some
            && after.file_explorer@.listing_at(path@)->0 !is Error,
{
}

/// What a batch gathers is what changed outside the records of git: each such path is
/// in it, once, and nothing else came in, unless there were so many that it stands for
/// the root. It is worth looking again exactly where something came in.
pub proof fn law_batch_gathers(batch: Seq<String>, root: String, paths: Seq<String>, count: int)
    requires
        batch.len() < FILE_WATCH_BATCH_PATH_LIMIT,
        0 <= count <= paths.len(),
    ensures
        ({
            let (items, relevant, full) = batch_after(batch, root, paths, count);
            &&& items.len() < FILE_WATCH_BATCH_PATH_LIMIT
            &&& full ==> items == seq![root] && relevant
            &&& !full ==> {
                &&& batch.is_prefix_of(items)
                &&& relevant <==> items.len() > batch.len()
                &&& forall|i: int|
                    #![trigger paths[i]]
                    0 <= i < count ==> (has_path(items, components(paths[i]@)) || components(
                        joined(root@, ".git"@),
                    ).is_prefix_of(components(paths[i]@)))
                &&& forall|k: int|
                    #![trigger items[k]]
                    batch.len() <= k < items.len() ==> exists|i: int|
                        0 <= i < count && items[k] == #[trigger] paths[i] && !components(
                            joined(root@, ".git"@),
                        ).is_prefix_of(components(paths[i]@))
            }
        }),
    decreases count,
{
    if count > 0 {
        law_batch_gathers(batch, root, paths, count - 1);
        let (items, relevant, full) = batch_after(batch, root, paths, count - 1);
        let (more, newly, filled) = batch_after(batch, root, paths, count);
        let path = paths[count - 1];
        if !filled {
            assert(batch =~= more.take(batch.len() as int));
            assert forall|i: int| #![trigger paths[i]] 0 <= i < count implies (has_path(
                more,
                components(paths[i]@),
            ) || components(joined(root@, ".git"@)).is_prefix_of(components(paths[i]@))) by {
                if i < count - 1 {
                    if has_path(items, components(paths[i]@)) {
                        let k = choose|k: int|
                            0 <= k < items.len() && components((#[trigger] items[k])@) == components(
                                paths[i]@,
                            );
                        assert(more[k] == items[k]);
                    }
                } else if more.len() > items.len() {
                    assert(more[items.len() as int] == path);
                }
            }
            assert forall|k: int| #![trigger more[k]] batch.len() <= k < more.len() implies exists|
                i: int,
            |
                0 <= i < count && more[k] == #[trigger] paths[i] && !components(
                    joined(root@, ".git"@),
                ).is_prefix_of(components(paths[i]@)) by {
                if k < items.len() {
                    assert(more[k] == items[k]);
                    let i = choose|i: int|
                        0 <= i < count - 1 && items[k] == #[trigger] paths[i] && !components(
                            joined(root@, ".git"@),
                        ).is_prefix_of(components(paths[i]@));
                    assert(more[k] == paths[i]);
                } else {
                    assert(more[k] == paths[count - 1]);
                }
            }
        }
    } else {
        assert(batch =~= batch.take(batch.len() as int));
    }
}

} // verus!
