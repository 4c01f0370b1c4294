//! The file explorer: directory listings, local changes, and the reads that
//! keep them current.
use vstd::prelude::*;
use vstd::string::*;

use crate::app::{
    BlackholesApp, ChangesFeed, DirectoryListing, FileEntry, FileExplorerMode, FileExplorerState,
    RepositoryChange, RepositoryChangesState,
};
use crate::collections::{PathMap, PathSet};
use crate::effects::Effect;
use crate::model::text_of;
use crate::paths::{components, is_under, lies_under, same_path};
use crate::text::same_text;

verus! {

// ---------------------------------------------------------------------------
// The model of the explorer
// ---------------------------------------------------------------------------
/// The explorer as sets and maps of paths, which stand there by their components.
#[verifier::ext_equal]
pub struct ExplorerModel {
    pub open: bool,
    pub root: Option<Seq<char>>,
    pub root_label: Seq<char>,
    pub mode: FileExplorerMode,
    pub expanded: Set<Seq<Seq<char>>>,
    pub listings: Map<Seq<Seq<char>>, DirectoryListing>,
    pub requests: Map<Seq<Seq<char>>, u64>,
    pub selected: Option<Seq<char>>,
    pub next_request_id: u64,
    pub changes: ChangesFeed,
}

impl View for FileExplorerState {
    type V = ExplorerModel;

    open spec fn view(&self) -> ExplorerModel {
        ExplorerModel {
            open: self.open,
            root: text_of(self.root),
            root_label: self.root_label@,
            mode: self.mode,
            expanded: self.expanded@,
            listings: self.directories@,
            requests: self.requests@,
            selected: text_of(self.selected),
            next_request_id: self.next_request_id,
            changes: self.changes,
        }
    }
}

impl ExplorerModel {
    /// The explorer before anything was opened.
    pub open spec fn closed() -> ExplorerModel {
        ExplorerModel {
            open: false,
            root: None,
            root_label: Seq::empty(),
            mode: FileExplorerMode::Files,
            expanded: Set::empty(),
            listings: Map::empty(),
            requests: Map::empty(),
            selected: None,
            next_request_id: 0,
            changes: idle_feed(0),
        }
    }

    /// The explorer after a listing was asked for: the request is the latest of
    /// the directory, and a listing that is there stays until the answer comes.
    pub open spec fn listing_requested(self, path: Seq<char>) -> ExplorerModel {
        let request_id = BlackholesApp::next(self.next_request_id);
        ExplorerModel {
            next_request_id: request_id,
            requests: self.requests.insert(components(path), request_id),
            listings: if self.listing_at(path) matches Some(DirectoryListing::Loaded(_)) {
                self.listings
            } else {
                self.listings.insert(components(path), DirectoryListing::Loading)
            },
            ..self
        }
    }

    /// The explorer after the answer to the latest request of a directory.
    pub open spec fn listing_received(self, path: Seq<char>, listing: DirectoryListing) -> ExplorerModel {
        ExplorerModel {
            requests: self.requests.remove(components(path)),
            listings: self.listings.insert(components(path), listing),
            ..self
        }
    }

    /// The request is the latest one of the directory of the open root.
    pub open spec fn awaits(self, root: Seq<char>, path: Seq<char>, request_id: u64) -> bool {
        self.is_at(root) && self.requests.dom().contains(components(path))
            && self.requests[components(path)] == request_id
    }

    /// The root is open.
    pub open spec fn is_at(self, root: Seq<char>) -> bool {
        self.root matches Some(current) && components(current) == components(root)
    }

    /// The listing of a directory.
    pub open spec fn listing_at(self, path: Seq<char>) -> Option<DirectoryListing> {
        if self.listings.dom().contains(components(path)) {
            Some(self.listings[components(path)])
        } else {
            None
        }
    }
}

/// A feed that nothing was read for.
pub open spec fn idle_feed(request_id: u64) -> ChangesFeed {
    ChangesFeed {
        state: RepositoryChangesState::Idle,
        request_id,
        in_flight: false,
        refresh_pending: false,
    }
}

/// Nothing is there to show, so a read shows that it is under way.
pub open spec fn shows_loading(feed: ChangesFeed) -> bool {
    feed.state is Idle || feed.state is Error
}

/// The feed after a read was asked for: it starts, or follows the one under way.
pub open spec fn feed_requested(feed: ChangesFeed) -> ChangesFeed {
    if feed.in_flight {
        ChangesFeed { refresh_pending: true, ..feed }
    } else {
        ChangesFeed {
            state: if shows_loading(feed) {
                RepositoryChangesState::Loading
            } else {
                feed.state
            },
            request_id: BlackholesApp::next(feed.request_id),
            in_flight: true,
            refresh_pending: feed.refresh_pending,
        }
    }
}

pub fn closed_explorer() -> (result: FileExplorerState)
    ensures
        result@ == ExplorerModel::closed(),
        result.expanded.items@.len() == 0,
{
    let result = FileExplorerState {
        open: false,
        root: None,
        root_label: String::new(),
        mode: FileExplorerMode::Files,
        expanded: PathSet::new(),
        directories: PathMap::new(),
        requests: PathMap::new(),
        selected: None,
        next_request_id: 0,
        changes: ChangesFeed {
            state: RepositoryChangesState::Idle,
            request_id: 0,
            in_flight: false,
            refresh_pending: false,
        },
    };
    assert(result@ =~= ExplorerModel::closed());
    result
}

impl BlackholesApp {
    /// `after` is `before` with another explorer and further requests.
    pub open spec fn explores(
        before: Self,
        after: Self,
        model: ExplorerModel,
        effects: Seq<Effect>,
    ) -> bool {
        &&& after.file_explorer@ == model
        &&& after.effects@ == before.effects@ + effects
        &&& after == (BlackholesApp {
            file_explorer: after.file_explorer,
            effects: after.effects,
            ..before
        })
    }

    /// The root that is open, as the text that holds it.
    pub open spec fn explorer_root(&self) -> String {
        self.file_explorer.root->0
    }

    // -----------------------------------------------------------------------
    // Directory listings
    // -----------------------------------------------------------------------
    /// A listing of the path can be asked for: it lies under the open root.
    pub open spec fn can_list(&self, path: Seq<char>) -> bool {
        self.file_explorer@.root matches Some(root) && is_under(path, root)
    }

    /// `after` is `before` with a listing asked for.
    pub open spec fn lists(before: Self, after: Self, path: String) -> bool {
        if before.can_list(path@) {
            let model = before.file_explorer@.listing_requested(path@);
            Self::explores(
                before,
                after,
                model,
                seq![
                    Effect::ReadDirectory {
                        root: before.explorer_root(),
                        path,
                        request_id: model.next_request_id,
                    },
                ] + before.publishes_workbench(),
            ) && after.file_explorer == (FileExplorerState {
                directories: after.file_explorer.directories,
                requests: after.file_explorer.requests,
                next_request_id: after.file_explorer.next_request_id,
                ..before.file_explorer
            })
        } else {
            after == before
        }
    }

    /// Asks for the listing of a directory under the open root.
    pub fn request_directory(&mut self, path: String)
        ensures
            Self::lists(*old(self), *final(self), path),
    {
        let root = match &self.file_explorer.root {
            Some(root) => root.clone(),
            None => {
                return ;
            },
        };
        if !lies_under(path.as_str(), root.as_str()) {
            return ;
        }
        let ghost before = *self;
        self.file_explorer.next_request_id = self.file_explorer.next_request_id.wrapping_add(1);
        let request_id: u64 = self.file_explorer.next_request_id;
        self.file_explorer.requests.insert(path.clone(), request_id);
        let loaded: bool = match self.file_explorer.directories.get(path.as_str()) {
            Some(DirectoryListing::Loaded(_)) => true,
            _ => false,
        };
        if !loaded {
            self.file_explorer.directories.insert(path.clone(), DirectoryListing::Loading);
        }
        let ghost key = path@;
        self.emit(Effect::ReadDirectory { root, path, request_id });
        self.publish_workbench_surface();
        assert(self.file_explorer@ =~= before.file_explorer@.listing_requested(key));
        assert(self.effects@ =~= before.effects@ + (seq![
            Effect::ReadDirectory { root, path, request_id },
        ] + before.publishes_workbench()));
    }

    /// `after` is `before` after the answer to a request for a listing. One that is
    /// not the latest of its directory, or for another root, changes nothing.
    pub open spec fn answers_listing(
        before: Self,
        after: Self,
        root: Seq<char>,
        path: Seq<char>,
        request_id: u64,
        result: Result<Vec<FileEntry>, String>,
    ) -> bool {
        let listing = match result {
            Ok(entries) => DirectoryListing::Loaded(entries),
            Err(error) => DirectoryListing::Error(error),
        };
        if before.file_explorer@.awaits(root, path, request_id) {
            Self::explores(
                before,
                after,
                before.file_explorer@.listing_received(path, listing),
                before.publishes_workbench() + seq![Effect::Redraw],
            )
        } else {
            after == before
        }
    }

    /// The answer to a request for a listing.
    pub fn finish_directory_request(
        &mut self,
        root: &str,
        path: String,
        request_id: u64,
        result: Result<Vec<FileEntry>, String>,
    )
        ensures
            Self::answers_listing(*old(self), *final(self), root@, path@, request_id, result),
    {
        let same_root: bool = match &self.file_explorer.root {
            Some(current) => same_path(current.as_str(), root),
            None => false,
        };
        let latest: bool = match self.file_explorer.requests.get(path.as_str()) {
            Some(latest) => *latest == request_id,
            None => false,
        };
        if !same_root || !latest {
            return ;
        }
        let ghost before = *self;
        let ghost key = path@;
        self.file_explorer.requests.remove(path.as_str());
        let listing = match result {
            Ok(entries) => DirectoryListing::Loaded(entries),
            Err(error) => DirectoryListing::Error(error),
        };
        self.file_explorer.directories.insert(path, listing);
        self.publish_workbench_surface();
        self.notify();
        assert(self.file_explorer@ =~= before.file_explorer@.listing_received(key, listing));
        assert(self.effects@ =~= before.effects@ + (before.publishes_workbench() + seq![
            Effect::Redraw,
        ]));
    }

    // -----------------------------------------------------------------------
    // Local changes
    // -----------------------------------------------------------------------
    /// The requests that asking for the local changes makes.
    pub open spec fn changes_requests(&self) -> Seq<Effect> {
        let feed = self.file_explorer.changes;
        if feed.in_flight {
            seq![]
        } else {
            (if shows_loading(feed) {
                self.publishes_workbench() + seq![Effect::Redraw]
            } else {
                seq![]
            }) + seq![
                Effect::ReadChanges {
                    root: self.explorer_root(),
                    request_id: Self::next(feed.request_id),
                },
            ]
        }
    }

    /// `after` is `before` with the local changes asked for.
    pub open spec fn asks_for_changes(before: Self, after: Self) -> bool {
        if before.file_explorer.root is None {
            after == before
        } else {
            &&& after.effects@ == before.effects@ + before.changes_requests()
            &&& after == (BlackholesApp {
                file_explorer: FileExplorerState {
                    changes: feed_requested(before.file_explorer.changes),
                    ..before.file_explorer
                },
                effects: after.effects,
                ..before
            })
        }
    }

    /// Asks for the local changes of the open root.
    pub fn request_repository_changes(&mut self)
        ensures
            Self::asks_for_changes(*old(self), *final(self)),
    {
        let root = match &self.file_explorer.root {
            Some(root) => root.clone(),
            None => {
                return ;
            },
        };
        let ghost before = *self;
        if self.file_explorer.changes.in_flight {
            self.file_explorer.changes.refresh_pending = true;
            assert(self.effects@ =~= before.effects@ + Seq::<Effect>::empty());
            return ;
        }
        self.file_explorer.changes.in_flight = true;
        self.file_explorer.changes.request_id =
        self.file_explorer.changes.request_id.wrapping_add(1);
        let request_id: u64 = self.file_explorer.changes.request_id;
        let show_loading: bool = match &self.file_explorer.changes.state {
            RepositoryChangesState::Idle => true,
            RepositoryChangesState::Error(_) => true,
            _ => false,
        };
        if show_loading {
            self.file_explorer.changes.state = RepositoryChangesState::Loading;
            self.publish_workbench_surface();
            self.notify();
        }
        self.emit(Effect::ReadChanges { root, request_id });
        assert(self.effects@ =~= before.effects@ + before.changes_requests());
    }
}

// ---------------------------------------------------------------------------
// Comparing changes
// ---------------------------------------------------------------------------
/// Two changes are the same in every part.
pub open spec fn same_change(a: RepositoryChange, b: RepositoryChange) -> bool {
    &&& components(a.path@) == components(b.path@)
    &&& a.relative_path@ == b.relative_path@
    &&& text_of(a.previous_relative_path) == text_of(b.previous_relative_path)
    &&& a.kind == b.kind
}

pub open spec fn same_changes(a: Seq<RepositoryChange>, b: Seq<RepositoryChange>) -> bool {
    &&& a.len() == b.len()
    &&& forall|i: int| 0 <= i < a.len() ==> same_change(#[trigger] a[i], b[i])
}

/// Whether two optional texts are the same.
pub fn same_optional_text(a: &Option<String>, b: &Option<String>) -> (result: bool)
    ensures
        result == (text_of(*a) == text_of(*b)),
{
    match (a, b) {
        (Some(a), Some(b)) => same_text(a.as_str(), b.as_str()),
        (None, None) => true,
        _ => false,
    }
}

fn changes_match(a: &Vec<RepositoryChange>, b: &Vec<RepositoryChange>) -> (result: bool)
    ensures
        result == same_changes(a@, b@),
{
    if a.len() != b.len() {
        return false;
    }
    let mut index: usize = 0;
    while index < a.len()
        invariant
            a@.len() == b@.len(),
            index <= a@.len(),
            forall|i: int| 0 <= i < index ==> same_change(#[trigger] a@[i], b@[i]),
        decreases a@.len() - index,
    {
        let (left, right) = (&a[index], &b[index]);
        let same: bool = same_path(left.path.as_str(), right.path.as_str()) && same_text(
            left.relative_path.as_str(),
            right.relative_path.as_str(),
        ) && same_optional_text(&left.previous_relative_path, &right.previous_relative_path)
            && left.kind == right.kind;
        if !same {
            assert(!same_change(a@[index as int], b@[index as int]));
            return false;
        }
        index += 1;
    }
    true
}

impl RepositoryChange {
    /// A copy of the change.
    pub fn duplicate(&self) -> (result: RepositoryChange)
        ensures
            result == *self,
    {
        RepositoryChange {
            path: self.path.clone(),
            relative_path: self.relative_path.clone(),
            previous_relative_path: crate::model::copy_text(&self.previous_relative_path),
            kind: self.kind,
        }
    }
}

/// What was read says the same as what is shown.
pub open spec fn nothing_new(
    state: RepositoryChangesState,
    result: Result<Vec<RepositoryChange>, String>,
) -> bool {
    match (state, result) {
        (RepositoryChangesState::Ready(current), Ok(changes)) => same_changes(current@, changes@),
        (RepositoryChangesState::Error(current), Err(message)) => current@ == message@,
        _ => false,
    }
}

fn tells_nothing_new(
    state: &RepositoryChangesState,
    result: &Result<Vec<RepositoryChange>, String>,
) -> (unchanged: bool)
    ensures
        unchanged == nothing_new(*state, *result),
{
    match (state, result) {
        (RepositoryChangesState::Ready(current), Ok(changes)) => changes_match(current, changes),
        (RepositoryChangesState::Error(current), Err(message)) => same_text(
            current.as_str(),
            message.as_str(),
        ),
        _ => false,
    }
}

/// What is shown after a read.
pub open spec fn state_after_read(
    state: RepositoryChangesState,
    result: Result<Vec<RepositoryChange>, String>,
) -> RepositoryChangesState {
    if nothing_new(state, result) {
        state
    } else {
        match result {
            Ok(changes) => RepositoryChangesState::Ready(changes),
            Err(message) => RepositoryChangesState::Error(message),
        }
    }
}

impl BlackholesApp {
    /// The feed after a read ended.
    pub open spec fn feed_answered(
        feed: ChangesFeed,
        result: Result<Vec<RepositoryChange>, String>,
    ) -> ChangesFeed {
        ChangesFeed {
            state: state_after_read(feed.state, result),
            in_flight: false,
            refresh_pending: false,
            ..feed
        }
    }

    /// `after` is `before` after a read of the local changes ended. Only the
    /// latest read of the open root counts. The surface is published only where
    /// something changed. Where another read was asked for meanwhile, and the
    /// changes are shown, it starts.
    pub open spec fn changes_read(
        before: Self,
        after: Self,
        root: Seq<char>,
        request_id: u64,
        result: Result<Vec<RepositoryChange>, String>,
    ) -> bool {
        let feed = before.file_explorer.changes;
        if !before.file_explorer@.is_at(root) || feed.request_id != request_id {
            after == before
        } else {
            let answered = Self::feed_answered(feed, result);
            let again = feed.refresh_pending && before.file_explorer.mode == FileExplorerMode::Changes;
            &&& after.file_explorer == (FileExplorerState {
                changes: if again {
                    feed_requested(answered)
                } else {
                    answered
                },
                ..before.file_explorer
            })
            &&& after.effects@ == before.effects@ + (if nothing_new(feed.state, result) {
                seq![]
            } else {
                before.publishes_workbench() + seq![Effect::Redraw]
            }) + (if again {
                (if shows_loading(answered) {
                    before.publishes_workbench() + seq![Effect::Redraw]
                } else {
                    seq![]
                }) + seq![
                    Effect::ReadChanges {
                        root: before.explorer_root(),
                        request_id: Self::next(request_id),
                    },
                ]
            } else {
                seq![]
            })
            &&& after == (BlackholesApp {
                file_explorer: after.file_explorer,
                effects: after.effects,
                ..before
            })
        }
    }

    /// A read of the local changes ended.
    #[verifier::rlimit(40)]
    pub fn finish_repository_changes_request(
        &mut self,
        root: &str,
        request_id: u64,
        result: Result<Vec<RepositoryChange>, String>,
    )
        ensures
            Self::changes_read(*old(self), *final(self), root@, request_id, result),
    {
        let same_root: bool = match &self.file_explorer.root {
            Some(current) => same_path(current.as_str(), root),
            None => false,
        };
        if !same_root || self.file_explorer.changes.request_id != request_id {
            return ;
        }
        let ghost before = *self;
        self.file_explorer.changes.in_flight = false;
        let unchanged: bool = tells_nothing_new(&self.file_explorer.changes.state, &result);
        if !unchanged {
            self.file_explorer.changes.state = match result {
                Ok(changes) => RepositoryChangesState::Ready(changes),
                Err(message) => RepositoryChangesState::Error(message),
            };
        }
        let refresh_again: bool = self.file_explorer.changes.refresh_pending;
        self.file_explorer.changes.refresh_pending = false;
        if !unchanged {
            self.publish_workbench_surface();
            self.notify();
        }
        let ghost answered = *self;
        assert(answered.file_explorer.changes == Self::feed_answered(
            before.file_explorer.changes,
            result,
        ));
        assert(answered.effects@ =~= before.effects@ + (if unchanged {
            seq![]
        } else {
            before.publishes_workbench() + seq![Effect::Redraw]
        }));
        if refresh_again && self.file_explorer.mode == FileExplorerMode::Changes {
            self.request_repository_changes();
        } else {
            assert(self.effects@ =~= answered.effects@ + Seq::<Effect>::empty());
        }
    }
}

/// Changes that are asked for while they are being read are read again: as soon
/// as the read ends another one starts, while the changes are shown.
pub proof fn law_changes_read_again(
    before: BlackholesApp,
    asked: BlackholesApp,
    after: BlackholesApp,
    result: Result<Vec<RepositoryChange>, String>,
)
    requires
        before.file_explorer.root is Some,
        before.file_explorer.mode == FileExplorerMode::Changes,
        before.file_explorer.changes.in_flight,
        BlackholesApp::asks_for_changes(before, asked),
        BlackholesApp::changes_read(
            asked,
            after,
            before.explorer_root()@,
            before.file_explorer.changes.request_id,
            result,
        ),
    ensures
        asked.effects@ == before.effects@,
        after.file_explorer.changes.in_flight,
        after.effects@.len() > 0,
        after.effects@.last() == (Effect::ReadChanges {
            root: before.explorer_root(),
            request_id: after.file_explorer.changes.request_id,
        }),
{
    assert(asked.effects@ =~= before.effects@);
}

/// A directory under the root that is asked for is listed by its answer: what was
/// read for it is what it shows, and an error with its words. Other directories stay
/// as they are, and so does a listing that is there until the answer comes.
pub proof fn law_listing_answered(
    before: BlackholesApp,
    asked: BlackholesApp,
    after: BlackholesApp,
    path: String,
    other: Seq<char>,
    result: Result<Vec<FileEntry>, String>,
)
    requires
        BlackholesApp::lists(before, asked, path),
        before.file_explorer.root matches Some(root) && components(root@).is_prefix_of(
            components(path@),
        ),
        BlackholesApp::answers_listing(
            asked,
            after,
            before.file_explorer.root->0@,
            path@,
            asked.file_explorer.next_request_id,
            result,
        ),
        components(other) != components(path@),
    ensures
        asked.effects@.len() > before.effects@.len() && asked.effects@[before.effects@.len() as int]
            == (Effect::ReadDirectory {
            root: before.file_explorer.root->0,
            path,
            request_id: asked.file_explorer.next_request_id,
        }),
        before.file_explorer@.listing_at(path@) matches Some(DirectoryListing::Loaded(entries))
            ==> asked.file_explorer@.listing_at(path@) == Some(DirectoryListing::Loaded(entries)),
        asked.file_explorer@.listing_at(path@) is Some,
        after.file_explorer@.listing_at(path@) == Some(
            match result {
                Ok(entries) => DirectoryListing::Loaded(entries),
                Err(error) => DirectoryListing::Error(error),
            },
        ),
        after.file_explorer@.listing_at(other) == before.file_explorer@.listing_at(other),
        after.file_explorer@.expanded == before.file_explorer@.expanded,
        after.file_explorer@.selected == before.file_explorer@.selected,
        after.effects@.last() == Effect::Redraw,
        after.active_file == before.active_file,
{
}

/// Only the latest request of a directory is answered: what comes for an earlier one,
/// or for another root, changes nothing.
pub proof fn law_late_listing(
    before: BlackholesApp,
    asked: BlackholesApp,
    after: BlackholesApp,
    path: String,
    root: Seq<char>,
    request_id: u64,
    result: Result<Vec<FileEntry>, String>,
)
    requires
        BlackholesApp::lists(before, asked, path),
        before.file_explorer.root matches Some(open) && components(open@).is_prefix_of(
            components(path@),
        ),
        BlackholesApp::answers_listing(asked, after, root, path@, request_id, result),
        request_id != asked.file_explorer.next_request_id || components(root) != components(
            before.file_explorer.root->0@,
        ),
    ensures
        after == asked,
{
}

/// The change says the same of the same file.
pub open spec fn tells_change(shown: RepositoryChange, read: RepositoryChange) -> bool {
    &&& components(shown.path@) == components(read.path@)
    &&& shown.relative_path@ == read.relative_path@
    &&& shown.kind == read.kind
    &&& shown.previous_relative_path is Some == read.previous_relative_path is Some
    &&& shown.previous_relative_path matches Some(path) ==> path@
        == read.previous_relative_path->0@
}

/// The local changes that are shown are those that were read last, in their order,
/// whatever was shown before; an error is shown with its words. Where what was shown
/// is not what was read, the window is drawn again.
pub proof fn law_changes_show_last_read(
    before: BlackholesApp,
    after: BlackholesApp,
    root: Seq<char>,
    request_id: u64,
    result: Result<Vec<RepositoryChange>, String>,
)
    requires
        BlackholesApp::changes_read(before, after, root, request_id, result),
        before.file_explorer.root matches Some(open) && components(open@) == components(root),
        before.file_explorer.changes.request_id == request_id,
    ensures
        result matches Ok(read) ==> (
        after.file_explorer.changes.state matches RepositoryChangesState::Ready(shown) && shown@.len()
            == read@.len() && forall|i: int|
            0 <= i < read@.len() ==> tells_change(#[trigger] shown@[i], read@[i])),
        result matches Err(message) ==> !before.file_explorer.changes.refresh_pending ==> (
        after.file_explorer.changes.state matches RepositoryChangesState::Error(shown) && shown@
            == message@),
        result matches Ok(read) && !(
        before.file_explorer.changes.state matches RepositoryChangesState::Ready(shown) && shown@.len()
            == read@.len() && forall|i: int|
            0 <= i < read@.len() ==> tells_change(#[trigger] shown@[i], read@[i])) ==> exists|i: int|
            before.effects@.len() <= i < after.effects@.len() && #[trigger] after.effects@[i]
                == Effect::Redraw,
        !before.file_explorer.changes.refresh_pending ==> !after.file_explorer.changes.in_flight,
        after.active_diff == before.active_diff,
{
    let state = before.file_explorer.changes.state;
    if let Ok(read) = result {
        if let RepositoryChangesState::Ready(current) = state {
            if same_changes(current@, read@) {
                assert forall|i: int| 0 <= i < read@.len() implies tells_change(
                    #[trigger] current@[i],
                    read@[i],
                ) by {
                    assert(same_change(current@[i], read@[i]));
                }
            }
        }
        if !nothing_new(state, result) {
            let at = before.effects@.len() + before.publishes_workbench().len();
            assert(after.effects@[at as int] == Effect::Redraw);
        }
    }
}

} // verus!
