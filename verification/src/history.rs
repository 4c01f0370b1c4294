//! The history of the repository that the file explorer shows: its commits, the
//! commit that is looked at, and the exchange with the remote.
use vstd::prelude::*;
use vstd::string::*;
use vstd::utf8::{encode_utf8, is_char_boundary};

use crate::app::{
    BlackholesApp, FileDiff, FileDiffLoadState, FileExplorerMode, RepositoryChange, Status,
};
use crate::clock::fresh_id;
use crate::documents::flush_requests;
use crate::effects::Effect;
use crate::explorer::same_optional_text;
use crate::ids::Id;
use crate::model::{copy_text, text_of};
use crate::navigation::copy_texts;
use crate::paths::{components, components_of, file_name, name_of, same_path};
use crate::search::{any_where, first_where, position};
use crate::source_control::SearchState;
use crate::text::{characters, chars_occur_at, occurs_at, same_text};

verus! {

/// How many commits are read at first, and how many more each time.
pub const HISTORY_PAGE: usize = 80;

/// How many commits are read at most.
pub const HISTORY_LIMIT: usize = 1000;

/// What was read of the history. `commits` are the ids, the latest first.
#[derive(Debug)]
pub struct Snapshot {
    pub head: Option<String>,
    pub branch: Option<String>,
    pub upstream: Option<String>,
    pub push_branch: Option<String>,
    pub commits: Vec<String>,
    pub git_dirs: Vec<String>,
}

/// What a commit changed against one of its parents.
#[derive(Debug)]
pub struct CommitDetail {
    pub id: String,
    pub parent: Option<String>,
    pub files: Vec<RepositoryChange>,
}

#[derive(Debug)]
pub struct HistoryState {
    pub snapshot: Option<Snapshot>,
    pub loading: bool,
    pub pending: bool,
    pub error: Option<String>,
    pub request: Option<Id>,
    pub limit: usize,
    pub detail: Option<CommitDetail>,
    pub selected: Option<String>,
    pub detail_request: Option<Id>,
    pub detail_error: Option<String>,
    pub message: Option<String>,
    pub watching: bool,
}

/// The commits that a comparison is of, abbreviated.
#[derive(Debug)]
pub struct Comparison {
    pub from: String,
    pub to: String,
}

/// The state of the repository that the user agreed to push.
#[derive(Debug)]
pub struct ReviewedPush {
    pub head: Option<String>,
    pub branch: Option<String>,
    pub upstream: Option<String>,
    pub target: Option<String>,
}

/// A place in a file that the editor is to show.
#[derive(Debug)]
pub struct Reveal {
    pub id: Id,
    pub path: String,
    pub line: usize,
    pub column: usize,
    pub end_column: usize,
}

/// What git and the search have to say of the open root.
#[derive(Debug)]
pub struct SourceControl {
    pub history: HistoryState,
    pub search: SearchState,
    pub reveal: Option<Reveal>,
    /// What git was read to say of the local changes. The host fills it in; the
    /// library only forgets it.
    pub scm_info: Option<String>,
    /// An operation of git is under way.
    pub busy: bool,
}

impl HistoryState {
    /// Nothing was read and nothing is asked for.
    pub open spec fn is_idle(&self) -> bool {
        &&& self.snapshot is None
        &&& !self.loading
        &&& !self.pending
        &&& self.error is None
        &&& self.request is None
        &&& self.limit == 0
        &&& self.detail is None
        &&& self.selected is None
        &&& self.detail_request is None
        &&& self.detail_error is None
        &&& self.message is None
        &&& !self.watching
    }

    /// The history before anything was read.
    pub fn new() -> (result: Self)
        ensures
            result.is_idle(),
    {
        HistoryState {
            snapshot: None,
            loading: false,
            pending: false,
            error: None,
            request: None,
            limit: 0,
            detail: None,
            selected: None,
            detail_request: None,
            detail_error: None,
            message: None,
            watching: false,
        }
    }
}

impl SourceControl {
    /// Nothing is known of any root.
    pub open spec fn is_blank(&self) -> bool {
        self.history.is_idle() && self.search.is_idle() && self.reveal is None
            && self.scm_info is None
    }

    /// Nothing was read and nothing is asked for.
    pub open spec fn is_idle(&self) -> bool {
        self.is_blank() && !self.busy
    }

    /// The state before anything was read.
    pub fn new() -> (result: Self)
        ensures
            result.is_idle(),
    {
        SourceControl {
            history: HistoryState::new(),
            search: SearchState::new(),
            reveal: None,
            scm_info: None,
            busy: false,
        }
    }

    /// Forgets what was read of a root; an operation that is under way goes on.
    pub(crate) fn forget_root(&mut self)
        ensures
            final(self).is_blank(),
            final(self).busy == old(self).busy,
    {
        self.history = HistoryState::new();
        self.search = SearchState::new();
        self.reveal = None;
        self.scm_info = None;
    }
}

// ---------------------------------------------------------------------------
// Reading the history
// ---------------------------------------------------------------------------
/// How many commits are wanted when another page is asked for, or not.
pub open spec fn wanted_limit(limit: usize, more: bool) -> usize {
    if !more {
        limit
    } else if limit < HISTORY_PAGE {
        (2 * HISTORY_PAGE) as usize
    } else if limit + HISTORY_PAGE < HISTORY_LIMIT {
        (limit + HISTORY_PAGE) as usize
    } else {
        HISTORY_LIMIT
    }
}

/// How many commits are read: never less than a page.
pub open spec fn read_limit(limit: usize) -> usize {
    if limit < HISTORY_PAGE {
        HISTORY_PAGE
    } else {
        limit
    }
}

fn next_limit(limit: usize, more: bool) -> (result: usize)
    ensures
        result == wanted_limit(limit, more),
{
    if !more {
        limit
    } else if limit < HISTORY_PAGE {
        2 * HISTORY_PAGE
    } else if limit < HISTORY_LIMIT - HISTORY_PAGE {
        limit + HISTORY_PAGE
    } else {
        HISTORY_LIMIT
    }
}

/// From a limit in its range every request reads at least a page, at most the
/// limit of the history, and never less than the one before.
pub proof fn law_history_limit(limit: usize, more: bool)
    requires
        limit <= HISTORY_LIMIT,
    ensures
        HISTORY_PAGE <= read_limit(wanted_limit(limit, more)) <= HISTORY_LIMIT,
        read_limit(limit) <= read_limit(wanted_limit(limit, more)),
        more && read_limit(limit) < HISTORY_LIMIT ==> read_limit(limit) < read_limit(
            wanted_limit(limit, more),
        ),
{
}

impl BlackholesApp {
    /// The explorer is open and shows the root.
    pub open spec fn shows_root(&self, root: Seq<char>) -> bool {
        self.file_explorer.open && components_of(self.file_explorer.root) == Some(components(root))
    }

    /// The root is that of the explorer.
    pub open spec fn has_root(&self, root: Seq<char>) -> bool {
        components_of(self.file_explorer.root) == Some(components(root))
    }

    pub(crate) fn is_root(&self, root: &str) -> (result: bool)
        ensures
            result == self.has_root(root@),
    {
        match &self.file_explorer.root {
            Some(current) => same_path(current.as_str(), root),
            None => false,
        }
    }

    /// Whether the explorer is open and shows the root.
    pub fn history_root_matches(&self, root: &str) -> (result: bool)
        ensures
            result == self.shows_root(root@),
    {
        self.file_explorer.open && self.is_root(root)
    }

    /// `after` is `before` with the history being read.
    pub open spec fn begins_history(before: Self, after: Self, more: bool, history: Id) -> bool {
        let limit = read_limit(wanted_limit(before.source_control.history.limit, more));
        &&& after.effects@ == before.effects@ + seq![
            Effect::ReadHistory { root: before.explorer_root(), history, limit },
        ] + before.publishes_workbench() + seq![Effect::Redraw]
        &&& after == (BlackholesApp {
            source_control: SourceControl {
                history: HistoryState {
                    limit,
                    request: Some(history),
                    loading: true,
                    error: None,
                    ..before.source_control.history
                },
                ..before.source_control
            },
            effects: after.effects,
            ..before
        })
    }

    /// `after` is `before` with the history asked for, and another page of it
    /// where `more` is. While it is being read it is only marked to be read again.
    pub open spec fn asks_for_history(before: Self, after: Self, more: bool) -> bool {
        if before.file_explorer.root is None {
            after == before
        } else if before.source_control.history.loading {
            after == (BlackholesApp {
                source_control: SourceControl {
                    history: HistoryState {
                        limit: wanted_limit(before.source_control.history.limit, more),
                        pending: true,
                        ..before.source_control.history
                    },
                    ..before.source_control
                },
                ..before
            })
        } else {
            exists|history: Id| #[trigger] Self::begins_history(before, after, more, history)
        }
    }

    /// Asks for the history of the open root.
    pub fn request_git_history(&mut self, more: bool)
        ensures
            Self::asks_for_history(*old(self), *final(self), more),
    {
        let root = match &self.file_explorer.root {
            Some(root) => root.clone(),
            None => {
                return ;
            },
        };
        let ghost before = *self;
        let limit: usize = next_limit(self.source_control.history.limit, more);
        self.source_control.history.limit = limit;
        if self.source_control.history.loading {
            self.source_control.history.pending = true;
            return ;
        }
        let limit: usize = if limit < HISTORY_PAGE {
            HISTORY_PAGE
        } else {
            limit
        };
        let history = fresh_id();
        self.source_control.history.limit = limit;
        self.source_control.history.request = Some(history);
        self.source_control.history.loading = true;
        self.source_control.history.error = None;
        self.emit(Effect::ReadHistory { root, history, limit });
        self.publish_workbench_surface();
        self.notify();
        assert(self.effects@ =~= before.effects@ + seq![
            Effect::ReadHistory { root, history, limit },
        ] + before.publishes_workbench() + seq![Effect::Redraw]);
        assert(Self::begins_history(before, *self, more, history));
    }

    /// The history was asked for under the request and is of the open root.
    pub open spec fn awaits_history(&self, root: Seq<char>, history: Id) -> bool {
        self.has_root(root) && self.source_control.history.request == Some(history)
    }

    /// The request to watch what was read of the history, where nothing is
    /// watched yet.
    pub open spec fn is_watch_request(
        before: Self,
        effects: Seq<Effect>,
        root: Seq<char>,
        result: Result<Snapshot, String>,
    ) -> bool {
        match result {
            Ok(snapshot) if !before.source_control.history.watching => {
                &&& effects.len() == 1
                &&& effects[0] matches Effect::WatchHistory { root: watched, directories }
                    && watched@ == root && directories@ == snapshot.git_dirs@
            },
            _ => effects.len() == 0,
        }
    }

    /// The history after it was read or could not be.
    pub open spec fn history_answered(
        history: HistoryState,
        result: Result<Snapshot, String>,
    ) -> HistoryState {
        match result {
            Ok(snapshot) => HistoryState {
                loading: false,
                pending: false,
                snapshot: Some(snapshot),
                watching: true,
                ..history
            },
            Err(message) => HistoryState {
                loading: false,
                pending: false,
                error: Some(message),
                ..history
            },
        }
    }

    /// The state right after the answer, before a read that was asked for
    /// meanwhile starts.
    pub open spec fn history_read(
        before: Self,
        after: Self,
        root: Seq<char>,
        result: Result<Snapshot, String>,
    ) -> bool {
        &&& exists|watch: Seq<Effect>| #[trigger]
            Self::is_watch_request(before, watch, root, result) && after.effects@ == before.effects@
                + watch + before.publishes_workbench() + seq![Effect::Redraw]
        &&& after == (BlackholesApp {
            source_control: SourceControl {
                history: Self::history_answered(before.source_control.history, result),
                ..before.source_control
            },
            effects: after.effects,
            ..before
        })
    }

    /// `after` is `before` with an answer taken in.
    pub open spec fn takes_history(
        before: Self,
        after: Self,
        root: Seq<char>,
        history: Id,
        result: Result<Snapshot, String>,
    ) -> bool {
        if !before.awaits_history(root, history) {
            after == before
        } else if before.source_control.history.pending {
            exists|answered: BlackholesApp| #[trigger]
                Self::history_read(before, answered, root, result) && Self::asks_for_history(
                    answered,
                    after,
                    false,
                )
        } else {
            Self::history_read(before, after, root, result)
        }
    }

    /// The history was read, or could not be. What was read for another request
    /// or another root changes nothing; where another read was asked for
    /// meanwhile, it starts.
    pub fn finish_git_history(&mut self, root: &str, history: Id, result: Result<Snapshot, String>)
        ensures
            Self::takes_history(*old(self), *final(self), root@, history, result),
    {
        let ghost before = *self;
        let ghost given = result;
        if !self.is_root(root) || self.source_control.history.request != Some(history) {
            return ;
        }
        self.source_control.history.loading = false;
        let again: bool = self.source_control.history.pending;
        self.source_control.history.pending = false;
        let ghost mut watch = Seq::<Effect>::empty();
        match result {
            Ok(snapshot) => {
                let directories = copy_texts(&snapshot.git_dirs);
                self.source_control.history.snapshot = Some(snapshot);
                if !self.source_control.history.watching {
                    self.source_control.history.watching = true;
                    let root = root.to_string();
                    proof {
                        watch = seq![Effect::WatchHistory { root, directories }];
                    }
                    self.emit(Effect::WatchHistory { root, directories });
                }
            },
            Err(message) => {
                self.source_control.history.error = Some(message);
            },
        }
        self.publish_workbench_surface();
        self.notify();
        assert(Self::is_watch_request(before, watch, root@, given));
        assert(self.effects@ =~= before.effects@ + watch + before.publishes_workbench() + seq![
            Effect::Redraw,
        ]);
        assert(Self::history_read(before, *self, root@, given));
        if again {
            self.request_git_history(false);
        }
    }

    /// Nothing can be watched.
    pub fn history_watch_failed(&mut self)
        ensures
            *final(self) == (BlackholesApp {
                source_control: SourceControl {
                    history: HistoryState {
                        watching: false,
                        ..old(self).source_control.history
                    },
                    ..old(self).source_control
                },
                ..*old(self)
            }),
    {
        self.source_control.history.watching = false;
    }
}

/// An answer that is late changes nothing: with another root open, or with the
/// history asked for again since, the state stays as it is.
pub proof fn law_late_history(
    before: BlackholesApp,
    after: BlackholesApp,
    root: Seq<char>,
    history: Id,
    result: Result<Snapshot, String>,
)
    requires
        BlackholesApp::takes_history(before, after, root, history, result),
        !before.has_root(root) || before.source_control.history.request != Some(history),
    ensures
        after == before,
{
}

// ---------------------------------------------------------------------------
// Watching
// ---------------------------------------------------------------------------
/// `name` is one of the components of the path.
pub open spec fn component_at(path: Seq<char>, name: Seq<char>, at: int) -> bool {
    &&& occurs_at(path, name, at)
    &&& at > 0 ==> path[at - 1] == '/'
    &&& at + name.len() < path.len() ==> path[(at + name.len()) as int] == '/'
}

/// `name` is one of the components of the path.
pub open spec fn has_component(path: Seq<char>, name: Seq<char>) -> bool {
    exists|at: int| #[trigger] component_at(path, name, at)
}

fn holds_component(path: &str, name: &str) -> (result: bool)
    ensures
        result == has_component(path@, name@),
{
    let source = characters(path);
    let wanted = characters(name);
    let mut at: usize = 0;
    while at < source.len() && wanted.len() <= source.len() - at
        invariant
            source@ == path@,
            wanted@ == name@,
            at <= source@.len(),
            forall|i: int| 0 <= i < at ==> !#[trigger] component_at(path@, name@, i),
        decreases source@.len() - at,
    {
        let end: usize = at + wanted.len();
        if chars_occur_at(&source, &wanted, at) && (at == 0 || source[at - 1] == '/') && (end
            == source.len() || source[end] == '/') {
            assert(component_at(path@, name@, at as int));
            return true;
        }
        assert(!component_at(path@, name@, at as int));
        at += 1;
    }
    if wanted.len() == 0 && at == source.len() && (at == 0 || source[at - 1] == '/') {
        assert(path@.subrange(at as int, at as int) =~= name@);
        assert(component_at(path@, name@, at as int));
        return true;
    }
    assert forall|i: int| !#[trigger] component_at(path@, name@, i) by {
        if i >= at {
            assert(i + name@.len() <= path@.len() ==> i == at && name@.len() == 0);
        }
    }
    false
}

/// The files in which git keeps where the branches are.
pub open spec fn is_reference_file(name: Seq<char>) -> bool {
    ||| name == "HEAD"@
    ||| name == "index"@
    ||| name == "config"@
    ||| name == "packed-refs"@
    ||| name == "FETCH_HEAD"@
    ||| name == "shallow"@
}

/// The name of the file at a path, empty where it has none.
pub open spec fn name_or_empty(path: Seq<char>) -> Seq<char> {
    match name_of(path) {
        Some(name) => name,
        None => seq![],
    }
}

/// A change of the file can be one of the history; a lock file comes and goes.
pub open spec fn concerns_history(path: Seq<char>) -> bool {
    let name = name_or_empty(path);
    !".lock"@.is_suffix_of(name) && (has_component(path, "refs"@) || is_reference_file(name))
}

/// Whether a change of the file can be one of the history.
pub fn is_history_path(path: &str) -> (result: bool)
    ensures
        result == concerns_history(path@),
{
    let name = match file_name(path) {
        Some(name) => name,
        None => {
            let nothing = "".to_string();
            proof {
                reveal_strlit("");
                assert(nothing@ =~= Seq::<char>::empty());
            }
            nothing
        },
    };
    assert(name@ == name_or_empty(path@));
    let letters = characters(name.as_str());
    let suffix = characters(".lock");
    if suffix.len() <= letters.len() {
        let from: usize = letters.len() - suffix.len();
        let locked: bool = chars_occur_at(&letters, &suffix, from);
        proof {
            assert(letters@.subrange(from as int, letters@.len() as int) =~= letters@.skip(
                from as int,
            ));
            assert(locked == ".lock"@.is_suffix_of(name@));
        }
        if locked {
            return false;
        }
    }
    holds_component(path, "refs") || same_text(name.as_str(), "HEAD") || same_text(
        name.as_str(),
        "index",
    ) || same_text(name.as_str(), "config") || same_text(name.as_str(), "packed-refs")
        || same_text(name.as_str(), "FETCH_HEAD") || same_text(name.as_str(), "shallow")
}

impl BlackholesApp {
    /// `after` is `before` with everything that depends on the history asked for.
    pub open spec fn rereads_repository(before: Self, after: Self) -> bool {
        exists|first: BlackholesApp, second: BlackholesApp| #[trigger]
            Self::asks_for_history(before, first, false) && #[trigger] Self::asks_for_changes(
                first,
                second,
            ) && Self::refreshes_diff(second, after)
    }

    /// Something changed where git keeps the history. What is shown is read
    /// again while the changes are on screen. The answer is whether the watch
    /// goes on: it ends when another root is open.
    pub fn history_changed(&mut self, root: &str) -> (result: bool)
        ensures
            result == old(self).has_root(root@),
            if old(self).has_root(root@) && old(self).file_explorer.mode
                == FileExplorerMode::Changes {
                Self::rereads_repository(*old(self), *final(self))
            } else {
                *final(self) == *old(self)
            },
    {
        if !self.is_root(root) {
            return false;
        }
        if self.file_explorer.mode == FileExplorerMode::Changes {
            let ghost before = *self;
            self.request_git_history(false);
            let ghost first = *self;
            self.request_repository_changes();
            let ghost second = *self;
            self.refresh_active_repository_diff();
            assert(Self::asks_for_history(before, first, false));
            assert(Self::asks_for_changes(first, second));
        }
        true
    }
}

// ---------------------------------------------------------------------------
// A commit
// ---------------------------------------------------------------------------
pub open spec fn text_is(wanted: Seq<char>) -> spec_fn(String) -> bool {
    |text: String| text@ == wanted
}

impl Snapshot {
    /// The commit is one of those that were read.
    pub open spec fn has_commit(&self, commit: Seq<char>) -> bool {
        any_where(self.commits@, text_is(commit))
    }

    /// Whether the commit is one of those that were read.
    pub fn holds_commit(&self, commit: &str) -> (result: bool)
        ensures
            result == self.has_commit(commit@),
    {
        let mut index: usize = 0;
        while index < self.commits.len()
            invariant
                index <= self.commits@.len(),
                forall|i: int| 0 <= i < index ==> (#[trigger] self.commits@[i])@ != commit@,
            decreases self.commits@.len() - index,
        {
            if same_text(self.commits[index].as_str(), commit) {
                assert(text_is(commit@)(self.commits@[index as int]));
                return true;
            }
            index += 1;
        }
        false
    }
}

impl BlackholesApp {
    /// The commit is one of those that are shown.
    pub open spec fn knows_commit(&self, commit: Seq<char>) -> bool {
        self.source_control.history.snapshot matches Some(snapshot) && snapshot.has_commit(commit)
    }

    /// `after` is `before` with no commit looked at.
    pub open spec fn deselects_commit(before: Self, after: Self) -> bool {
        &&& after.effects@ == before.effects@ + before.publishes_workbench() + seq![Effect::Redraw]
        &&& after == (BlackholesApp {
            source_control: SourceControl {
                history: HistoryState {
                    selected: None,
                    detail: None,
                    detail_request: None,
                    detail_error: None,
                    ..before.source_control.history
                },
                ..before.source_control
            },
            effects: after.effects,
            ..before
        })
    }

    /// `after` is `before` with a commit looked at: what is open is saved and
    /// closed, and the commit is read.
    pub open spec fn looks_at_commit(
        before: Self,
        after: Self,
        commit: String,
        parent: Option<String>,
        history: Id,
    ) -> bool {
        &&& after.effects@ == before.effects@ + flush_requests(before.active_file) + seq![
            Effect::ReadCommit { root: before.explorer_root(), history, commit, base: parent },
        ] + after.publishes_workbench() + seq![Effect::Redraw]
        &&& after == (BlackholesApp {
            active_file: None,
            active_diff: None,
            source_control: SourceControl {
                history: HistoryState {
                    selected: Some(commit),
                    detail: None,
                    detail_error: None,
                    detail_request: Some(history),
                    ..before.source_control.history
                },
                ..before.source_control
            },
            effects: after.effects,
            ..before
        })
    }

    /// `after` is `before` with a commit chosen, against one of its parents or the
    /// first. Choosing the commit that is looked at again, with no comparison open,
    /// looks away.
    pub open spec fn chooses_commit(
        before: Self,
        after: Self,
        commit: String,
        parent: Option<String>,
    ) -> bool {
        if before.file_explorer.root is None || !before.knows_commit(commit@) {
            after == before
        } else if parent is None && text_of(before.source_control.history.selected) == Some(commit@)
            && before.active_diff is None {
            Self::deselects_commit(before, after)
        } else {
            exists|history: Id| #[trigger]
                Self::looks_at_commit(before, after, commit, parent, history)
        }
    }

    /// Looks at a commit.
    pub fn select_git_commit(&mut self, commit: String, parent: Option<String>)
        ensures
            Self::chooses_commit(*old(self), *final(self), commit, parent),
    {
        let root = match &self.file_explorer.root {
            Some(root) => root.clone(),
            None => {
                return ;
            },
        };
        let known: bool = match &self.source_control.history.snapshot {
            Some(snapshot) => snapshot.holds_commit(commit.as_str()),
            None => false,
        };
        if !known {
            return ;
        }
        let ghost before = *self;
        let again: bool = match &self.source_control.history.selected {
            Some(selected) => same_text(selected.as_str(), commit.as_str()),
            None => false,
        };
        if parent.is_none() && again && self.active_diff.is_none() {
            self.source_control.history.selected = None;
            self.source_control.history.detail = None;
            self.source_control.history.detail_request = None;
            self.source_control.history.detail_error = None;
            self.publish_workbench_surface();
            self.notify();
            assert(self.effects@ =~= before.effects@ + before.publishes_workbench() + seq![
                Effect::Redraw,
            ]);
            return ;
        }
        self.flush_active_file();
        self.active_file = None;
        self.active_diff = None;
        let history = fresh_id();
        self.source_control.history.selected = Some(commit.clone());
        self.source_control.history.detail = None;
        self.source_control.history.detail_error = None;
        self.source_control.history.detail_request = Some(history);
        self.emit(Effect::ReadCommit { root, history, commit, base: parent });
        self.publish_workbench_surface();
        self.notify();
        assert(self.effects@ =~= before.effects@ + flush_requests(before.active_file) + seq![
            Effect::ReadCommit { root, history, commit, base: parent },
        ] + self.publishes_workbench() + seq![Effect::Redraw]);
        assert(Self::looks_at_commit(before, *self, commit, parent, history));
    }

    /// The commit was asked for under the request and is of the open root.
    pub open spec fn awaits_commit(&self, root: Seq<char>, history: Id) -> bool {
        self.has_root(root) && self.source_control.history.detail_request == Some(history)
    }

    /// `after` is `before` after a commit was read, or could not be. What was read for
    /// another request or another root changes nothing.
    pub open spec fn answers_commit(
        before: Self,
        after: Self,
        root: Seq<char>,
        history: Id,
        result: Result<CommitDetail, String>,
    ) -> bool {
        if !before.awaits_commit(root, history) {
            after == before
        } else {
            &&& after.effects@ == before.effects@ + before.publishes_workbench() + seq![
                Effect::Redraw,
            ]
            &&& after == (BlackholesApp {
                source_control: SourceControl {
                    history: match result {
                        Ok(detail) => HistoryState {
                            detail_request: None,
                            detail: Some(detail),
                            ..before.source_control.history
                        },
                        Err(message) => HistoryState {
                            detail_request: None,
                            detail_error: Some(message),
                            ..before.source_control.history
                        },
                    },
                    ..before.source_control
                },
                effects: after.effects,
                ..before
            })
        }
    }

    /// A commit was read, or could not be.
    pub fn finish_git_commit(
        &mut self,
        root: &str,
        history: Id,
        result: Result<CommitDetail, String>,
    )
        ensures
            Self::answers_commit(*old(self), *final(self), root@, history, result),
    {
        let ghost before = *self;
        if !self.is_root(root) || self.source_control.history.detail_request != Some(history) {
            return ;
        }
        self.source_control.history.detail_request = None;
        match result {
            Ok(detail) => {
                self.source_control.history.detail = Some(detail);
            },
            Err(message) => {
                self.source_control.history.detail_error = Some(message);
            },
        }
        self.publish_workbench_surface();
        self.notify();
        assert(self.effects@ =~= before.effects@ + before.publishes_workbench() + seq![
            Effect::Redraw,
        ]);
    }
}

/// A commit id is long enough to be abbreviated.
pub open spec fn can_abbreviate(id: Seq<char>) -> bool {
    is_char_boundary(encode_utf8(id), 8)
}

/// `short` is the abbreviation of a commit id: its first eight bytes.
pub open spec fn abbreviates(short: Seq<char>, id: Seq<char>) -> bool {
    encode_utf8(short) == encode_utf8(id).take(8)
}

fn abbreviate(id: &str) -> (result: String)
    requires
        can_abbreviate(id@),
    ensures
        abbreviates(result@, id@),
{
    let (short, _) = id.split_at(8);
    assert(encode_utf8(id@).subrange(0, 8) =~= encode_utf8(id@).take(8));
    short.to_string()
}

impl CommitDetail {
    /// The ids of the commit and of its parent can be abbreviated.
    pub open spec fn has_full_ids(&self) -> bool {
        &&& can_abbreviate(self.id@)
        &&& self.parent matches Some(parent) ==> can_abbreviate(parent@)
    }

    /// Whether the ids of the commit and of its parent can be abbreviated.
    pub fn ids_are_full(&self) -> (result: bool)
        ensures
            result == self.has_full_ids(),
    {
        let parent: bool = match &self.parent {
            Some(parent) => parent.as_str().is_char_boundary(8),
            None => true,
        };
        parent && self.id.as_str().is_char_boundary(8)
    }

    /// The comparison that looking at a file of the commit makes. Where the commit
    /// is the first one, it is compared with nothing.
    pub open spec fn is_compared(&self, comparison: Comparison) -> bool {
        &&& match self.parent {
            Some(parent) => abbreviates(comparison.from@, parent@),
            None => comparison.from@ == "∅"@,
        }
        &&& abbreviates(comparison.to@, self.id@)
    }
}

pub open spec fn file_is(path: Seq<char>) -> spec_fn(RepositoryChange) -> bool {
    |change: RepositoryChange| change.relative_path@ == path
}

/// Where the file with the path stands among the changes.
pub open spec fn file_at(files: Seq<RepositoryChange>, path: Seq<char>) -> Option<int> {
    first_where(files, file_is(path), 0)
}

fn find_file(files: &Vec<RepositoryChange>, path: &str) -> (result: Option<usize>)
    ensures
        position(result) == file_at(files@, path@),
        result matches Some(at) ==> at < files@.len(),
{
    let mut index: usize = 0;
    while index < files.len()
        invariant
            index <= files@.len(),
            file_at(files@, path@) == first_where(files@, file_is(path@), index as int),
        decreases files@.len() - index,
    {
        if same_text(files[index].relative_path.as_str(), path) {
            return Some(index);
        }
        index += 1;
    }
    None
}

impl BlackholesApp {
    /// Where the file stands in the commit, if the commit is looked at and
    /// changed the file.
    pub open spec fn commit_file(&self, commit: Seq<char>, path: Seq<char>) -> Option<int> {
        match self.source_control.history.detail {
            Some(detail) if self.file_explorer.root is Some && detail.id@ == commit => file_at(
                detail.files@,
                path,
            ),
            _ => None,
        }
    }

    /// `after` is `before` with the comparison of a file of a commit opened.
    pub open spec fn opens_commit_diff(
        before: Self,
        after: Self,
        at: int,
        comparison: Comparison,
    ) -> bool {
        let detail = before.source_control.history.detail->0;
        let change = detail.files@[at];
        let request_id = Self::next(before.next_file_diff_request_id);
        let root = before.explorer_root();
        &&& detail.is_compared(comparison)
        &&& after.effects@ == before.effects@ + seq![
            Effect::ReadCommitDiff {
                root,
                commit: detail.id,
                parent: detail.parent,
                change,
                request_id,
            },
        ] + after.publishes_workbench() + seq![Effect::Redraw]
        &&& after == (BlackholesApp {
            next_file_diff_request_id: request_id,
            active_diff: Some(
                FileDiff {
                    root,
                    change,
                    load_state: FileDiffLoadState::Loading,
                    request_id,
                    request_in_flight: true,
                    refresh_pending: false,
                    comparison: Some(comparison),
                },
            ),
            effects: after.effects,
            ..before
        })
    }

    /// `after` is `before` with the comparison of a file of the commit that is
    /// looked at opened.
    pub open spec fn compares_commit_file(before: Self, after: Self, at: int) -> bool {
        exists|comparison: Comparison| #[trigger]
            Self::opens_commit_diff(before, after, at, comparison)
    }

    /// Opens the comparison of a file of the commit that is looked at.
    pub fn open_git_commit_diff(&mut self, commit: &str, path: &str)
        requires
            old(self).source_control.history.detail matches Some(detail) ==> detail.has_full_ids(),
        ensures
            match old(self).commit_file(commit@, path@) {
                Some(at) => Self::compares_commit_file(*old(self), *final(self), at),
                None => *final(self) == *old(self),
            },
    {
        let ghost before = *self;
        let root = match &self.file_explorer.root {
            Some(root) => root.clone(),
            None => {
                return ;
            },
        };
        let detail = match &self.source_control.history.detail {
            Some(detail) => detail,
            None => {
                return ;
            },
        };
        if !same_text(detail.id.as_str(), commit) {
            return ;
        }
        let at = match find_file(&detail.files, path) {
            Some(at) => at,
            None => {
                return ;
            },
        };
        let change = detail.files[at].duplicate();
        let asked = change.duplicate();
        let commit = detail.id.clone();
        let parent = copy_text(&detail.parent);
        let from = match &detail.parent {
            Some(parent) => abbreviate(parent.as_str()),
            None => "∅".to_string(),
        };
        let to = abbreviate(detail.id.as_str());
        let comparison = Comparison { from, to };
        let ghost made = comparison;
        self.next_file_diff_request_id = self.next_file_diff_request_id.wrapping_add(1);
        let request_id: u64 = self.next_file_diff_request_id;
        self.active_diff =
        Some(
            FileDiff {
                root: root.clone(),
                change,
                load_state: FileDiffLoadState::Loading,
                request_id,
                request_in_flight: true,
                refresh_pending: false,
                comparison: Some(comparison),
            },
        );
        self.emit(Effect::ReadCommitDiff { root, commit, parent, change: asked, request_id });
        self.publish_workbench_surface();
        self.notify();
        assert(self.effects@ =~= before.effects@ + seq![
            Effect::ReadCommitDiff { root, commit, parent, change: asked, request_id },
        ] + self.publishes_workbench() + seq![Effect::Redraw]);
        assert(before.commit_file(commit@, path@) == Some(at as int));
        assert(Self::opens_commit_diff(before, *self, at as int, made));
    }
}

// ---------------------------------------------------------------------------
// The remote
// ---------------------------------------------------------------------------
/// The branch that a push goes to.
pub open spec fn push_target(snapshot: Snapshot) -> Option<String> {
    if snapshot.upstream is Some {
        snapshot.push_branch
    } else {
        snapshot.branch
    }
}

/// What was reviewed is what was read.
pub open spec fn is_reviewed(snapshot: Snapshot, reviewed: ReviewedPush) -> bool {
    &&& text_of(snapshot.head) == text_of(reviewed.head)
    &&& text_of(snapshot.branch) == text_of(reviewed.branch)
    &&& text_of(snapshot.upstream) == text_of(reviewed.upstream)
    &&& text_of(push_target(snapshot)) == text_of(reviewed.target)
}

/// What can be done with the remote.
#[derive(Clone, Copy, Debug, PartialEq, Eq, Structural)]
pub enum RemoteOperation {
    Fetch,
    Push,
}

/// The operation of a name.
pub open spec fn remote_operation(name: Seq<char>) -> Option<RemoteOperation> {
    if name == "fetch"@ {
        Some(RemoteOperation::Fetch)
    } else if name == "push"@ {
        Some(RemoteOperation::Push)
    } else {
        None
    }
}

fn operation_of(name: &str) -> (result: Option<RemoteOperation>)
    ensures
        result == remote_operation(name@),
{
    if same_text(name, "fetch") {
        Some(RemoteOperation::Fetch)
    } else if same_text(name, "push") {
        Some(RemoteOperation::Push)
    } else {
        None
    }
}

impl BlackholesApp {
    /// The history says what the user reviewed, and it is not being read again.
    pub open spec fn push_is_current(&self, reviewed: ReviewedPush) -> bool {
        &&& self.source_control.history.snapshot matches Some(snapshot) && is_reviewed(
            snapshot,
            reviewed,
        )
        &&& self.source_control.history.error is None
        &&& !self.source_control.history.loading
    }

    /// `message` is what the history shows.
    pub open spec fn tells_history(before: Self, after: Self, message: Seq<char>) -> bool {
        &&& text_of(after.source_control.history.message) == Some(message)
        &&& after == (BlackholesApp {
            source_control: SourceControl {
                history: HistoryState {
                    message: after.source_control.history.message,
                    ..before.source_control.history
                },
                ..before.source_control
            },
            ..before
        })
    }

    /// `after` is `before` with a push refused, since there is something new to
    /// review.
    pub open spec fn refuses_push(before: Self, after: Self) -> bool {
        exists|told: BlackholesApp| #[trigger]
            Self::tells_history(
                before,
                told,
                before.text(
                    "The branch changed. Refresh and review the push again."@,
                    "La rama cambió. Actualiza y revisa el push otra vez."@,
                ),
            ) && Self::asks_for_history(told, after, false)
    }

    /// The request of an operation with the remote.
    pub open spec fn remote_request(
        &self,
        operation: RemoteOperation,
        remote: String,
        reviewed: ReviewedPush,
    ) -> Effect {
        match operation {
            RemoteOperation::Fetch => Effect::Fetch { root: self.explorer_root(), remote },
            RemoteOperation::Push => Effect::Push { root: self.explorer_root(), remote, reviewed },
        }
    }

    /// `after` is `before` with an operation with the remote under way.
    pub open spec fn starts_remote(before: Self, after: Self, request: Effect) -> bool {
        &&& after.effects@ == before.effects@ + seq![after.guards_update(), request]
            + before.publishes_workbench() + seq![Effect::Redraw]
        &&& after == (BlackholesApp {
            source_control: SourceControl {
                busy: true,
                history: HistoryState { message: None, ..before.source_control.history },
                ..before.source_control
            },
            effects: after.effects,
            ..before
        })
    }

    /// `after` is `before` with an operation with the remote asked for. Nothing
    /// happens while another operation is under way, without a history, and where
    /// the operation is unknown; and nothing is pushed but what was reviewed.
    pub open spec fn operates_remotely(
        before: Self,
        after: Self,
        operation: Seq<char>,
        remote: String,
        reviewed: ReviewedPush,
    ) -> bool {
        match remote_operation(operation) {
            Some(operation) if !before.source_control.busy && before.file_explorer.root is Some
                && before.source_control.history.snapshot is Some => if operation
                == RemoteOperation::Push && !before.push_is_current(reviewed) {
                Self::refuses_push(before, after)
            } else {
                Self::starts_remote(
                    before,
                    after,
                    before.remote_request(operation, remote, reviewed),
                )
            },
            _ => after == before,
        }
    }

    /// Fetches from a remote, or pushes to it what was reviewed.
    pub fn git_remote_operation(&mut self, operation: &str, remote: String, reviewed: ReviewedPush)
        ensures
            Self::operates_remotely(*old(self), *final(self), operation@, remote, reviewed),
    {
        let ghost before = *self;
        if self.source_control.busy {
            return ;
        }
        let operation = match operation_of(operation) {
            Some(operation) => operation,
            None => {
                return ;
            },
        };
        let root = match &self.file_explorer.root {
            Some(root) => root.clone(),
            None => {
                return ;
            },
        };
        let current: bool = match &self.source_control.history.snapshot {
            Some(snapshot) => {
                let target = if snapshot.upstream.is_some() {
                    &snapshot.push_branch
                } else {
                    &snapshot.branch
                };
                same_optional_text(&snapshot.head, &reviewed.head) && same_optional_text(
                    &snapshot.branch,
                    &reviewed.branch,
                ) && same_optional_text(&snapshot.upstream, &reviewed.upstream)
                    && same_optional_text(target, &reviewed.target)
                    && self.source_control.history.error.is_none()
                    && !self.source_control.history.loading
            },
            None => {
                return ;
            },
        };
        if operation == RemoteOperation::Push && !current {
            let message = self.tr(
                "The branch changed. Refresh and review the push again.",
                "La rama cambió. Actualiza y revisa el push otra vez.",
            ).to_string();
            self.source_control.history.message = Some(message);
            assert(Self::tells_history(before, *self, message@));
            self.request_git_history(false);
            return ;
        }
        self.source_control.busy = true;
        self.source_control.history.message = None;
        self.sync_update_guard();
        let ghost request = before.remote_request(operation, remote, reviewed);
        match operation {
            RemoteOperation::Fetch => self.emit(Effect::Fetch { root, remote }),
            RemoteOperation::Push => self.emit(Effect::Push { root, remote, reviewed }),
        }
        self.publish_workbench_surface();
        self.notify();
        assert(self.effects@ =~= before.effects@ + seq![self.guards_update(), request]
            + before.publishes_workbench() + seq![Effect::Redraw]);
    }

    /// The operation is over and its message is the status.
    pub open spec fn ends_remote(before: Self, after: Self, message: Seq<char>, error: bool) -> bool {
        &&& after.status matches Some(status) && status.message@ == message && status.error == error
        &&& after.effects@ == before.effects@ + seq![after.guards_update()]
        &&& after == (BlackholesApp {
            source_control: SourceControl { busy: false, ..before.source_control },
            status: after.status,
            effects: after.effects,
            ..before
        })
    }

    /// What an operation with the remote ended with.
    pub open spec fn remote_message(&self, result: Result<(), String>) -> Seq<char> {
        match result {
            Ok(_) => self.text("Git operation completed"@, "Operación de Git completada"@),
            Err(message) => message@,
        }
    }

    /// `after` is `before` with the outcome shown: the history of the root, where
    /// it is still open, and its changes are read again.
    pub open spec fn rereads_after_remote(
        before: Self,
        after: Self,
        root: Seq<char>,
        message: Seq<char>,
    ) -> bool {
        if before.has_root(root) {
            exists|told: BlackholesApp, read: BlackholesApp| #[trigger]
                Self::tells_history(before, told, message) && #[trigger] Self::asks_for_history(
                    told,
                    read,
                    false,
                ) && Self::asks_for_changes(read, after)
        } else {
            after == before
        }
    }

    /// `after` is `before` after an operation with the remote ended.
    pub open spec fn finishes_remotely(
        before: Self,
        after: Self,
        root: Seq<char>,
        result: Result<(), String>,
    ) -> bool {
        exists|ended: BlackholesApp, read: BlackholesApp| #[trigger]
            Self::ends_remote(before, ended, before.remote_message(result), result is Err)
                && #[trigger] Self::rereads_after_remote(
                ended,
                read,
                root,
                before.remote_message(result),
            ) && Self::shows_workbench(read, after)
    }

    /// An operation with the remote ended.
    pub fn finish_git_remote_operation(&mut self, root: &str, result: Result<(), String>)
        ensures
            Self::finishes_remotely(*old(self), *final(self), root@, result),
    {
        let ghost before = *self;
        let ghost given = result;
        self.source_control.busy = false;
        self.sync_update_guard();
        let error: bool = result.is_err();
        let message = match result {
            Ok(_) => self.tr("Git operation completed", "Operación de Git completada").to_string(),
            Err(message) => message,
        };
        self.status = Some(Status { message: message.clone(), error });
        let ghost ended = *self;
        assert(Self::ends_remote(before, ended, before.remote_message(given), given is Err));
        if self.is_root(root) {
            self.source_control.history.message = Some(message);
            let ghost told = *self;
            assert(Self::tells_history(ended, told, before.remote_message(given)));
            self.request_git_history(false);
            let ghost read = *self;
            self.request_repository_changes();
            assert(Self::asks_for_history(told, read, false));
        }
        assert(Self::rereads_after_remote(ended, *self, root@, before.remote_message(given)));
        self.show_workbench();
    }

    /// What the page of the history shows, but for what was read of it.
    pub fn history_view(&self) -> (result: HistoryView)
        ensures
            result.loading == self.source_control.history.loading,
            text_of(result.error) == text_of(self.source_control.history.error),
            text_of(result.selected_file) == match self.active_diff {
                Some(diff) if diff.comparison is Some => Some(diff.change.relative_path@),
                _ => None,
            },
            text_of(result.selected) == text_of(self.source_control.history.selected),
            result.detail_loading == (self.source_control.history.detail_request is Some),
            text_of(result.detail_error) == text_of(self.source_control.history.detail_error),
            result.busy == self.source_control.busy,
            text_of(result.message) == text_of(self.source_control.history.message),
    {
        let selected_file: Option<String> = match &self.active_diff {
            Some(diff) => if diff.comparison.is_some() {
                Some(diff.change.relative_path.clone())
            } else {
                None
            },
            None => None,
        };
        HistoryView {
            loading: self.source_control.history.loading,
            error: copy_text(&self.source_control.history.error),
            selected_file,
            selected: copy_text(&self.source_control.history.selected),
            detail_loading: self.source_control.history.detail_request.is_some(),
            detail_error: copy_text(&self.source_control.history.detail_error),
            busy: self.source_control.busy,
            message: copy_text(&self.source_control.history.message),
        }
    }
}

/// What the page of the history shows, but for what was read of it.
#[derive(Debug)]
pub struct HistoryView {
    pub loading: bool,
    pub error: Option<String>,
    pub selected_file: Option<String>,
    pub selected: Option<String>,
    pub detail_loading: bool,
    pub detail_error: Option<String>,
    pub busy: bool,
    pub message: Option<String>,
}

/// A push is asked of the host only where no other operation is under way and
/// the history says exactly what the user reviewed, and then what is pushed is
/// what was reviewed.
pub proof fn law_push_is_reviewed(
    before: BlackholesApp,
    after: BlackholesApp,
    operation: Seq<char>,
    remote: String,
    reviewed: ReviewedPush,
    at: int,
)
    requires
        BlackholesApp::operates_remotely(before, after, operation, remote, reviewed),
        before.effects@.len() <= at < after.effects@.len(),
        after.effects@[at] is Push,
    ensures
        operation == "push"@,
        !before.source_control.busy,
        before.push_is_current(reviewed),
        after.effects@[at] == (Effect::Push { root: before.explorer_root(), remote, reviewed }),
        after.source_control.busy,
{
    let known = remote_operation(operation);
    if known == Some(RemoteOperation::Push) && !before.source_control.busy
        && before.file_explorer.root is Some && before.source_control.history.snapshot is Some
        && !before.push_is_current(reviewed) {
        let told = choose|told: BlackholesApp| #[trigger]
            BlackholesApp::tells_history(
                before,
                told,
                before.text(
                    "The branch changed. Refresh and review the push again."@,
                    "La rama cambió. Actualiza y revisa el push otra vez."@,
                ),
            ) && BlackholesApp::asks_for_history(told, after, false);
        assert(told.effects == before.effects);
        if !told.source_control.history.loading {
            let history = choose|history: Id| #[trigger]
                BlackholesApp::begins_history(told, after, false, history);
            assert(BlackholesApp::begins_history(told, after, false, history));
        }
        assert(false);
    }
}

/// A history that is asked for while it is being read is read again: as soon as
/// the read ends another one starts.
pub proof fn law_history_read_again(
    before: BlackholesApp,
    asked: BlackholesApp,
    after: BlackholesApp,
    more: bool,
    history: Id,
    result: Result<Snapshot, String>,
)
    requires
        before.file_explorer.root is Some,
        before.source_control.history.loading,
        before.source_control.history.request == Some(history),
        BlackholesApp::asks_for_history(before, asked, more),
        BlackholesApp::takes_history(
            asked,
            after,
            before.explorer_root()@,
            history,
            result,
        ),
    ensures
        asked.effects == before.effects,
        after.source_control.history.loading,
        after.source_control.history.limit == read_limit(
            wanted_limit(before.source_control.history.limit, more),
        ),
        exists|at: int|
            before.effects@.len() <= at < after.effects@.len() && (#[trigger] after.effects@[at]
                matches Effect::ReadHistory { root, history, limit } && root
                == before.explorer_root() && Some(history) == after.source_control.history.request
                && limit == after.source_control.history.limit),
{
    let answered = choose|answered: BlackholesApp| #[trigger]
        BlackholesApp::history_read(asked, answered, before.explorer_root()@, result)
            && BlackholesApp::asks_for_history(answered, after, false);
    assert(BlackholesApp::history_read(asked, answered, before.explorer_root()@, result));
    let again = choose|again: Id| #[trigger]
        BlackholesApp::begins_history(answered, after, false, again);
    assert(BlackholesApp::begins_history(answered, after, false, again));
    let at = answered.effects@.len() as int;
    assert(after.effects@[at] is ReadHistory);
}

/// What was read of the history of the open root is what is shown, or why there is
/// none; no read is owed any more unless one was asked for meanwhile. What git keeps is
/// watched once something was read.
pub proof fn law_history_shown(
    before: BlackholesApp,
    after: BlackholesApp,
    root: Seq<char>,
    history: Id,
    result: Result<Snapshot, String>,
)
    requires
        BlackholesApp::takes_history(before, after, root, history, result),
        before.file_explorer.root matches Some(open) && components(open@) == components(root),
        before.source_control.history.request == Some(history),
    ensures
        match result {
            Ok(snapshot) => after.source_control.history.snapshot == Some(snapshot)
                && after.source_control.history.watching,
            Err(message) => after.source_control.history.snapshot
                == before.source_control.history.snapshot && (
            !before.source_control.history.pending ==> after.source_control.history.error == Some(
                message,
            )),
        },
        after.source_control.history.loading == before.source_control.history.pending,
        after.source_control.history.selected == before.source_control.history.selected,
        (result matches Ok(snapshot) && !before.source_control.history.watching) ==> exists|i: int|
            before.effects@.len() <= i < after.effects@.len() && (#[trigger] after.effects@[i]
                matches Effect::WatchHistory { root: watched, directories } && watched@ == root
                && directories@ == result->Ok_0.git_dirs@),
{
    let at = before.effects@.len() as int;
    if before.source_control.history.pending {
        let answered = choose|answered: BlackholesApp| #[trigger]
            BlackholesApp::history_read(before, answered, root, result)
                && BlackholesApp::asks_for_history(answered, after, false);
        assert(BlackholesApp::history_read(before, answered, root, result));
        let again = choose|again: Id| #[trigger]
            BlackholesApp::begins_history(answered, after, false, again);
        assert(BlackholesApp::begins_history(answered, after, false, again));
        lemma_watched(before, answered, root, result);
        if result is Ok && !before.source_control.history.watching {
            assert(after.effects@[at] == answered.effects@[at]);
        }
    } else {
        lemma_watched(before, after, root, result);
    }
}

proof fn lemma_watched(
    before: BlackholesApp,
    after: BlackholesApp,
    root: Seq<char>,
    result: Result<Snapshot, String>,
)
    requires
        BlackholesApp::history_read(before, after, root, result),
    ensures
        before.effects@.len() <= after.effects@.len(),
        result is Ok && !before.source_control.history.watching ==> before.effects@.len()
            < after.effects@.len() && (after.effects@[before.effects@.len() as int] matches
        Effect::WatchHistory { root: watched, directories } && watched@ == root && directories@
            == result->Ok_0.git_dirs@),
{
    let watch = choose|watch: Seq<Effect>| #[trigger]
        BlackholesApp::is_watch_request(before, watch, root, result) && after.effects@
            == before.effects@ + watch + before.publishes_workbench() + seq![Effect::Redraw];
    assert(BlackholesApp::is_watch_request(before, watch, root, result));
    if result is Ok && !before.source_control.history.watching {
        assert(after.effects@[before.effects@.len() as int] == watch[0]);
    }
}

/// Asking for more reads more commits than before, up to the limit, of the open root;
/// asking again reads as many.
pub proof fn law_history_asked(before: BlackholesApp, after: BlackholesApp, more: bool)
    requires
        BlackholesApp::asks_for_history(before, after, more),
        before.file_explorer.root is Some,
        !before.source_control.history.loading,
        before.source_control.history.limit <= 1000,
    ensures
        after.source_control.history.loading,
        after.source_control.history.error is None,
        after.source_control.history.snapshot == before.source_control.history.snapshot,
        80 <= after.source_control.history.limit <= 1000,
        before.source_control.history.limit >= 80 ==> after.source_control.history.limit == if more
            && before.source_control.history.limit <= 920 {
            before.source_control.history.limit + 80
        } else if more {
            1000
        } else {
            before.source_control.history.limit as int
        },
        exists|i: int|
            before.effects@.len() <= i < after.effects@.len() && #[trigger] after.effects@[i] == (
            Effect::ReadHistory {
                root: before.file_explorer.root->0,
                history: after.source_control.history.request->0,
                limit: after.source_control.history.limit,
            }),
{
    let history = choose|history: Id| #[trigger]
        BlackholesApp::begins_history(before, after, more, history);
    assert(BlackholesApp::begins_history(before, after, more, history));
    assert(after.effects@[before.effects@.len() as int] is ReadHistory);
}

/// A commit that is chosen is looked at and read, with nothing else open and what was
/// typed handed over for saving; chosen again, without a parent, it is left. A commit
/// that is not listed cannot be chosen.
pub proof fn law_commit_chosen(
    before: BlackholesApp,
    after: BlackholesApp,
    commit: String,
    parent: Option<String>,
    at: int,
)
    requires
        BlackholesApp::chooses_commit(before, after, commit, parent),
        before.file_explorer.root is Some,
        before.source_control.history.snapshot matches Some(snapshot) && 0 <= at
            < snapshot.commits@.len() && snapshot.commits@[at]@ == commit@,
    ensures
        ({
            let again = parent is None && before.active_diff is None && (
            before.source_control.history.selected matches Some(selected) && selected@ == commit@);
            &&& again ==> after.source_control.history.selected is None
                && after.source_control.history.detail is None
                && after.source_control.history.detail_request is None && after.active_file
                == before.active_file
            &&& !again ==> {
                &&& after.source_control.history.selected == Some(commit)
                &&& after.source_control.history.detail is None
                &&& after.active_file is None
                &&& after.active_diff is None
                &&& exists|i: int|
                    before.effects@.len() <= i < after.effects@.len() && #[trigger] after.effects@[i]
                        == (Effect::ReadCommit {
                        root: before.file_explorer.root->0,
                        history: after.source_control.history.detail_request->0,
                        commit,
                        base: parent,
                    })
                &&& (before.active_file matches Some(file) && file.dirty && file.editor is Some)
                    ==> crate::documents::saves_text(
                    after.effects@[before.effects@.len() as int],
                    before.active_file->0,
                )
            }
        }),
{
    let snapshot = before.source_control.history.snapshot->0;
    assert(text_is(commit@)(snapshot.commits@[at]));
    let again = parent is None && text_of(before.source_control.history.selected) == Some(commit@)
        && before.active_diff is None;
    if !again {
        let history = choose|history: Id| #[trigger]
            BlackholesApp::looks_at_commit(before, after, commit, parent, history);
        assert(BlackholesApp::looks_at_commit(before, after, commit, parent, history));
        let flush = flush_requests(before.active_file);
        assert(after.effects@[(before.effects@.len() + flush.len()) as int] is ReadCommit);
        if flush.len() > 0 {
            assert(after.effects@[before.effects@.len() as int] == flush[0]);
        }
    }
}

/// A commit that is not listed cannot be looked at.
pub proof fn law_unlisted_commit(
    before: BlackholesApp,
    after: BlackholesApp,
    commit: String,
    parent: Option<String>,
)
    requires
        BlackholesApp::chooses_commit(before, after, commit, parent),
        before.source_control.history.snapshot matches Some(snapshot) ==> forall|i: int|
            0 <= i < snapshot.commits@.len() ==> (#[trigger] snapshot.commits@[i])@ != commit@,
    ensures
        after == before,
{
}

/// What was read of the commit that is looked at is what is shown of it; what was read
/// for another one changes nothing.
pub proof fn law_commit_read(
    before: BlackholesApp,
    after: BlackholesApp,
    root: Seq<char>,
    history: Id,
    result: Result<CommitDetail, String>,
)
    requires
        BlackholesApp::answers_commit(before, after, root, history, result),
    ensures
        ({
            let awaited = (before.file_explorer.root matches Some(open) && components(open@)
                == components(root)) && before.source_control.history.detail_request == Some(
                history,
            );
            &&& !awaited ==> after == before
            &&& awaited ==> {
                &&& after.source_control.history.detail_request is None
                &&& after.source_control.history.selected == before.source_control.history.selected
                &&& match result {
                    Ok(detail) => after.source_control.history.detail == Some(detail),
                    Err(message) => after.source_control.history.detail_error == Some(message)
                        && after.source_control.history.detail
                        == before.source_control.history.detail,
                }
            }
        }),
{
}

/// The comparison of a file of a commit is read between the commit and the parent that
/// it was read against.
pub proof fn law_commit_file_compared(before: BlackholesApp, after: BlackholesApp, at: int)
    requires
        BlackholesApp::compares_commit_file(before, after, at),
        before.source_control.history.detail is Some,
        before.file_explorer.root is Some,
    ensures
        after.active_diff matches Some(diff) && diff.change
            == before.source_control.history.detail->0.files@[at] && diff.comparison is Some
            && diff.load_state is Loading && diff.request_in_flight && diff.root
            == before.file_explorer.root->0,
        BlackholesApp::asked(before, after).contains(
            Effect::ReadCommitDiff {
                root: before.file_explorer.root->0,
                commit: before.source_control.history.detail->0.id,
                parent: before.source_control.history.detail->0.parent,
                change: before.source_control.history.detail->0.files@[at],
                request_id: after.active_diff->0.request_id,
            },
        ),
{
    let comparison = choose|comparison: Comparison| #[trigger]
        BlackholesApp::opens_commit_diff(before, after, at, comparison);
    assert(BlackholesApp::opens_commit_diff(before, after, at, comparison));
    assert(BlackholesApp::asked(before, after)[0] is ReadCommitDiff);
}

/// A fetch, or a push of what was reviewed, is handed over, and nothing else starts
/// until it is over.
pub proof fn law_remote_operation(
    before: BlackholesApp,
    after: BlackholesApp,
    operation: Seq<char>,
    remote: String,
    reviewed: ReviewedPush,
)
    requires
        BlackholesApp::operates_remotely(before, after, operation, remote, reviewed),
    ensures
        before.source_control.busy ==> after == before,
        operation != "fetch"@ && operation != "push"@ ==> after == before,
        operation == "fetch"@ && !before.source_control.busy && before.file_explorer.root is Some
            && before.source_control.history.snapshot is Some ==> after.source_control.busy
            && BlackholesApp::asked(before, after).contains(
            Effect::Fetch { root: before.file_explorer.root->0, remote },
        ),
        operation == "push"@ && !before.source_control.busy && before.file_explorer.root is Some && (
        before.source_control.history.snapshot matches Some(snapshot) && snapshot.head
            == reviewed.head && snapshot.branch == reviewed.branch && snapshot.upstream
            == reviewed.upstream && reviewed.target == if snapshot.upstream is Some {
            snapshot.push_branch
        } else {
            snapshot.branch
        }) && before.source_control.history.error is None && !before.source_control.history.loading
            ==> after.source_control.busy && BlackholesApp::asked(before, after).contains(
            Effect::Push { root: before.file_explorer.root->0, remote, reviewed },
        ),
{
    reveal_strlit("fetch");
    reveal_strlit("push");
    assert("fetch"@[0] == 'f' && "push"@[0] == 'p');
    if after.effects@.len() > before.effects@.len() + 1 {
        assert(BlackholesApp::asked(before, after)[1] == after.effects@[(before.effects@.len() + 1) as int]);
    }
}

/// Once an operation with the remote is over another one can start, its outcome is the
/// status, an error exactly where it failed, and the history of its root is read again.
pub proof fn law_remote_operation_ended(
    before: BlackholesApp,
    after: BlackholesApp,
    root: Seq<char>,
    result: Result<(), String>,
)
    requires
        BlackholesApp::finishes_remotely(before, after, root, result),
    ensures
        !after.source_control.busy,
        after.status matches Some(status) && status.error == (result is Err) && (result matches Err(
            message,
        ) ==> status.message@ == message@),
        (before.file_explorer.root matches Some(open) && components(open@) == components(root)) ==> {
            &&& after.source_control.history.loading
            &&& after.file_explorer.changes.in_flight
            &&& after.source_control.history.message matches Some(message) && message@
                == after.status->0.message@
        },
        !(before.file_explorer.root matches Some(open) && components(open@) == components(root))
            ==> after.source_control.history == before.source_control.history
            && after.file_explorer == before.file_explorer,
{
    let message = before.remote_message(result);
    let (ended, read) = choose|ended: BlackholesApp, read: BlackholesApp| #[trigger]
        BlackholesApp::ends_remote(before, ended, message, result is Err) && #[trigger]
        BlackholesApp::rereads_after_remote(ended, read, root, message)
            && BlackholesApp::shows_workbench(read, after);
    if before.has_root(root) {
        let (told, asked) = choose|told: BlackholesApp, asked: BlackholesApp| #[trigger]
            BlackholesApp::tells_history(ended, told, message) && #[trigger]
            BlackholesApp::asks_for_history(told, asked, false) && BlackholesApp::asks_for_changes(
                asked,
                read,
            );
        if !told.source_control.history.loading {
            let history = choose|history: Id| #[trigger]
                BlackholesApp::begins_history(told, asked, false, history);
            assert(BlackholesApp::begins_history(told, asked, false, history));
        }
        assert(asked.source_control.history.loading);
    }
}

/// A lock that Git takes while it works is no change of the history, whatever it
/// locks; the files that name the current commit are, and so is every reference.
pub proof fn law_history_paths(path: Seq<char>, name: Seq<char>)
    requires
        name_of(path) == Some(name),
    ensures
        ".lock"@.is_suffix_of(name) ==> !concerns_history(path),
        name == "HEAD"@ || name == "packed-refs"@ || name == "FETCH_HEAD"@ || name == "index"@
            ==> concerns_history(path),
        has_component(path, "refs"@) && !".lock"@.is_suffix_of(name) ==> concerns_history(path),
{
    reveal_strlit(".lock");
    reveal_strlit("HEAD");
    reveal_strlit("packed-refs");
    reveal_strlit("FETCH_HEAD");
    reveal_strlit("index");
    if ".lock"@.is_suffix_of(name) {
        assert(name.len() >= 5);
        assert(name.subrange(name.len() - 5, name.len() as int)[4] == 'k');
        assert(name.subrange(name.len() - 5, name.len() as int)[0] == '.');
        assert(name.last() == 'k');
        assert(name[name.len() - 5] == '.');
        if is_reference_file(name) {
            reveal_strlit("config");
            reveal_strlit("shallow");
        }
    }
}

} // verus!
