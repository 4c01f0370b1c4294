//! The comparison of a changed file with its committed version.
use vstd::prelude::*;
use vstd::string::*;

use crate::app::{
    BlackholesApp, FileDiff, FileDiffLoadState, FileExplorerState, RepositoryChange,
    RepositoryDiffRow, RepositoryFileDiff,
};
use crate::effects::Effect;
use crate::explorer::same_optional_text;
use crate::model::text_of;
use crate::paths::{components, same_path};
use crate::text::same_text;

verus! {

// ---------------------------------------------------------------------------
// Comparing comparisons
// ---------------------------------------------------------------------------
pub open spec fn same_row(a: RepositoryDiffRow, b: RepositoryDiffRow) -> bool {
    match (a, b) {
        (
            RepositoryDiffRow::Hunk { old_start: a1, new_start: a2, header: a3 },
            RepositoryDiffRow::Hunk { old_start: b1, new_start: b2, header: b3 },
        ) => a1 == b1 && a2 == b2 && a3@ == b3@,
        (
            RepositoryDiffRow::Line {
                old_number: a1,
                new_number: a2,
                old_text: a3,
                new_text: a4,
                kind: a5,
            },
            RepositoryDiffRow::Line {
                old_number: b1,
                new_number: b2,
                old_text: b3,
                new_text: b4,
                kind: b5,
            },
        ) => a1 == b1 && a2 == b2 && a3@ == b3@ && a4@ == b4@ && a5 == b5,
        _ => false,
    }
}

pub open spec fn same_rows(a: Seq<RepositoryDiffRow>, b: Seq<RepositoryDiffRow>) -> bool {
    &&& a.len() == b.len()
    &&& forall|i: int| 0 <= i < a.len() ==> same_row(#[trigger] a[i], b[i])
}

/// Two comparisons are the same in every part.
pub open spec fn same_diff(a: RepositoryFileDiff, b: RepositoryFileDiff) -> bool {
    &&& text_of(a.original) == text_of(b.original)
    &&& text_of(a.modified) == text_of(b.modified)
    &&& same_rows(a.rows@, b.rows@)
    &&& a.binary == b.binary
    &&& a.truncated == b.truncated
}

fn rows_match(a: &RepositoryDiffRow, b: &RepositoryDiffRow) -> (result: bool)
    ensures
        result == same_row(*a, *b),
{
    match (a, b) {
        (
            RepositoryDiffRow::Hunk { old_start: a1, new_start: a2, header: a3 },
            RepositoryDiffRow::Hunk { old_start: b1, new_start: b2, header: b3 },
        ) => *a1 == *b1 && *a2 == *b2 && same_text(a3.as_str(), b3.as_str()),
        (
            RepositoryDiffRow::Line {
                old_number: a1,
                new_number: a2,
                old_text: a3,
                new_text: a4,
                kind: a5,
            },
            RepositoryDiffRow::Line {
                old_number: b1,
                new_number: b2,
                old_text: b3,
                new_text: b4,
                kind: b5,
            },
        ) => *a1 == *b1 && *a2 == *b2 && same_text(a3.as_str(), b3.as_str()) && same_text(
            a4.as_str(),
            b4.as_str(),
        ) && *a5 == *b5,
        _ => false,
    }
}

fn diffs_match(a: &RepositoryFileDiff, b: &RepositoryFileDiff) -> (result: bool)
    ensures
        result == same_diff(*a, *b),
{
    if !same_optional_text(&a.original, &b.original) || !same_optional_text(
        &a.modified,
        &b.modified,
    ) || a.binary != b.binary || a.truncated != b.truncated || a.rows.len() != b.rows.len() {
        return false;
    }
    let mut index: usize = 0;
    while index < a.rows.len()
        invariant
            a.rows@.len() == b.rows@.len(),
            index <= a.rows@.len(),
            forall|i: int| 0 <= i < index ==> same_row(#[trigger] a.rows@[i], b.rows@[i]),
        decreases a.rows@.len() - index,
    {
        if !rows_match(&a.rows[index], &b.rows[index]) {
            assert(!same_row(a.rows@[index as int], b.rows@[index as int]));
            return false;
        }
        index += 1;
    }
    true
}

// ---------------------------------------------------------------------------
// Reading
// ---------------------------------------------------------------------------
/// The comparison is of the file, under the root.
pub open spec fn compares(diff: Option<FileDiff>, root: Seq<char>, path: Seq<char>) -> bool {
    diff matches Some(diff) && components(diff.root@) == components(root) && components(
        diff.change.path@,
    ) == components(path)
}

impl BlackholesApp {
    /// `after` is `before` with a comparison opened. While its file is being
    /// read the comparison is only marked to be read again; the open comparison
    /// of the file stays on screen while it is read again; any other one is
    /// replaced.
    pub open spec fn opens_diff(before: Self, after: Self, change: RepositoryChange) -> bool {
        if before.file_explorer.root is None {
            after == before
        } else {
            let root = before.explorer_root();
            let current = compares(before.active_diff, root@, change.path@);
            if current && before.active_diff->0.request_in_flight {
                after == (BlackholesApp {
                    active_diff: Some(
                        FileDiff { change, refresh_pending: true, ..before.active_diff->0 },
                    ),
                    ..before
                })
            } else {
                let request_id = Self::next(before.next_file_diff_request_id);
                &&& after.effects@ == before.effects@ + seq![
                    Effect::ReadDiff { root, change, request_id },
                ] + (if current {
                    seq![]
                } else {
                    after.publishes_workbench() + seq![Effect::Redraw]
                })
                &&& after == (BlackholesApp {
                    next_file_diff_request_id: request_id,
                    file_explorer: FileExplorerState {
                        selected: Some(change.path),
                        ..before.file_explorer
                    },
                    active_diff: if current {
                        Some(
                            FileDiff {
                                change,
                                request_id,
                                request_in_flight: true,
                                ..before.active_diff->0
                            },
                        )
                    } else {
                        Some(
                            FileDiff {
                                root,
                                change,
                                load_state: FileDiffLoadState::Loading,
                                request_id,
                                request_in_flight: true,
                                refresh_pending: false,
                                comparison: None,
                            },
                        )
                    },
                    surface: before.surface.plain(),
                    effects: after.effects,
                    ..before
                })
            }
        }
    }

    /// Opens the comparison of a changed file.
    pub fn open_repository_diff(&mut self, change: RepositoryChange)
        ensures
            Self::opens_diff(*old(self), *final(self), change),
    {
        let root = match &self.file_explorer.root {
            Some(root) => root.clone(),
            None => {
                return ;
            },
        };
        let ghost before = *self;
        let current: bool = match &self.active_diff {
            Some(diff) => same_path(diff.root.as_str(), root.as_str()) && same_path(
                diff.change.path.as_str(),
                change.path.as_str(),
            ),
            None => false,
        };
        if current {
            if let Some(diff) = &mut self.active_diff {
                if diff.request_in_flight {
                    diff.change = change;
                    diff.refresh_pending = true;
                    return ;
                }
            }
        }
        self.next_file_diff_request_id = self.next_file_diff_request_id.wrapping_add(1);
        let request_id: u64 = self.next_file_diff_request_id;
        let asked = change.duplicate();
        self.file_explorer.selected = Some(change.path.clone());
        if current {
            if let Some(diff) = &mut self.active_diff {
                diff.change = change;
                diff.request_id = request_id;
                diff.request_in_flight = true;
            }
        } else {
            self.active_diff =
            Some(
                FileDiff {
                    root: root.clone(),
                    change,
                    load_state: FileDiffLoadState::Loading,
                    request_id,
                    request_in_flight: true,
                    refresh_pending: false,
                    comparison: None,
                },
            );
        }
        self.surface.clear();
        self.emit(Effect::ReadDiff { root, change: asked, request_id });
        if !current {
            self.publish_workbench_surface();
            self.notify();
        }
        assert(self.effects@ =~= before.effects@ + seq![
            Effect::ReadDiff { root, change: asked, request_id },
        ] + (if current {
            seq![]
        } else {
            self.publishes_workbench() + seq![Effect::Redraw]
        }));
    }

    /// `after` is `before` with the open comparison read again.
    pub open spec fn refreshes_diff(before: Self, after: Self) -> bool {
        match before.active_diff {
            Some(diff) => Self::opens_diff(before, after, diff.change),
            None => after == before,
        }
    }

    /// Reads the open comparison again.
    pub fn refresh_active_repository_diff(&mut self)
        ensures
            Self::refreshes_diff(*old(self), *final(self)),
    {
        let change: Option<RepositoryChange> = match &self.active_diff {
            Some(diff) => Some(diff.change.duplicate()),
            None => None,
        };
        if let Some(change) = change {
            self.open_repository_diff(change);
        }
    }

    /// `after` is `before` with the comparison closed.
    pub open spec fn closes_diff(before: Self, after: Self) -> bool {
        &&& after.effects@ == before.effects@ + after.publishes_workbench() + seq![Effect::Redraw]
        &&& after == (BlackholesApp { active_diff: None, effects: after.effects, ..before })
    }

    /// Closes the comparison.
    pub fn close_repository_diff(&mut self)
        ensures
            Self::closes_diff(*old(self), *final(self)),
    {
        self.active_diff = None;
        self.publish_workbench_surface();
        self.notify();
        assert(self.effects@ =~= old(self).effects@ + self.publishes_workbench() + seq![
            Effect::Redraw,
        ]);
    }
}

/// What was read says the same as what is shown.
pub open spec fn diff_nothing_new(
    state: FileDiffLoadState,
    result: Result<RepositoryFileDiff, String>,
) -> bool {
    match (state, result) {
        (FileDiffLoadState::Ready(current), Ok(diff)) => same_diff(current, diff),
        (FileDiffLoadState::Error(current), Err(message)) => current@ == message@,
        _ => false,
    }
}

/// The comparison after a read ended.
pub open spec fn diff_answered(
    diff: FileDiff,
    result: Result<RepositoryFileDiff, String>,
) -> FileDiff {
    FileDiff {
        request_in_flight: false,
        refresh_pending: false,
        load_state: if diff_nothing_new(diff.load_state, result) {
            diff.load_state
        } else {
            match result {
                Ok(read) => FileDiffLoadState::Ready(read),
                Err(message) => FileDiffLoadState::Error(message),
            }
        },
        ..diff
    }
}

impl BlackholesApp {
    /// The open comparison is the one that the request was for.
    pub open spec fn awaits_diff(&self, root: Seq<char>, request_id: u64) -> bool {
        self.active_diff matches Some(diff) && components(diff.root@) == components(root)
            && diff.request_id == request_id
    }

    /// The state right after the answer, before a read that was asked for
    /// meanwhile starts.
    pub open spec fn diff_read(
        before: Self,
        after: Self,
        result: Result<RepositoryFileDiff, String>,
    ) -> bool {
        let diff = before.active_diff->0;
        &&& after.effects@ == before.effects@ + (if diff_nothing_new(diff.load_state, result) {
            seq![]
        } else {
            before.publishes_workbench() + seq![Effect::Redraw]
        })
        &&& after == (BlackholesApp {
            active_diff: Some(diff_answered(diff, result)),
            effects: after.effects,
            ..before
        })
    }

    /// `after` is `before` after a read of a comparison ended. What was read for
    /// another one changes nothing; the surface is published only where something
    /// changed; and where another read was asked for meanwhile, it starts.
    pub open spec fn answers_diff(
        before: Self,
        after: Self,
        root: Seq<char>,
        request_id: u64,
        result: Result<RepositoryFileDiff, String>,
    ) -> bool {
        if !before.awaits_diff(root, request_id) {
            after == before
        } else if before.active_diff->0.refresh_pending {
            exists|answered: BlackholesApp| #[trigger]
                Self::diff_read(before, answered, result) && Self::refreshes_diff(answered, after)
        } else {
            Self::diff_read(before, after, result)
        }
    }

    /// A comparison was read.
    pub fn finish_repository_diff_request(
        &mut self,
        root: &str,
        request_id: u64,
        result: Result<RepositoryFileDiff, String>,
    )
        ensures
            Self::answers_diff(*old(self), *final(self), root@, request_id, result),
    {
        let ghost before = *self;
        let current: bool = match &self.active_diff {
            Some(diff) => diff.request_id == request_id && same_path(diff.root.as_str(), root),
            None => false,
        };
        if !current {
            return ;
        }
        let mut unchanged: bool = false;
        let mut refresh_again: bool = false;
        if let Some(diff) = &mut self.active_diff {
            unchanged =
            match (&diff.load_state, &result) {
                (FileDiffLoadState::Ready(current), Ok(read)) => diffs_match(current, read),
                (FileDiffLoadState::Error(current), Err(message)) => same_text(
                    current.as_str(),
                    message.as_str(),
                ),
                _ => false,
            };
            diff.request_in_flight = false;
            if !unchanged {
                diff.load_state =
                match result {
                    Ok(read) => FileDiffLoadState::Ready(read),
                    Err(message) => FileDiffLoadState::Error(message),
                };
            }
            refresh_again = diff.refresh_pending;
            diff.refresh_pending = false;
        }
        if !unchanged {
            self.publish_workbench_surface();
            self.notify();
        }
        assert(self.effects@ =~= before.effects@ + (if unchanged {
            seq![]
        } else {
            before.publishes_workbench() + seq![Effect::Redraw]
        }));
        assert(Self::diff_read(before, *self, result));
        if refresh_again {
            self.refresh_active_repository_diff();
        }
    }
}

// ---------------------------------------------------------------------------
// What is shown
// ---------------------------------------------------------------------------
/// Two rows hold the same, part by part.
pub open spec fn holds_row(row: RepositoryDiffRow, wanted: RepositoryDiffRow) -> bool {
    match wanted {
        RepositoryDiffRow::Hunk { old_start, new_start, header } => {
            &&& row is Hunk
            &&& row->old_start == old_start
            &&& row->new_start == new_start
            &&& row->header@ == header@
        },
        RepositoryDiffRow::Line { old_number, new_number, old_text, new_text, kind } => {
            &&& row is Line
            &&& row->old_number == old_number
            &&& row->new_number == new_number
            &&& row->old_text@ == old_text@
            &&& row->new_text@ == new_text@
            &&& row->kind == kind
        },
    }
}

/// What is shown is the text that was read, and its rows, and that it is binary or
/// cut off where it is.
pub open spec fn holds_diff(shown: RepositoryFileDiff, read: RepositoryFileDiff) -> bool {
    &&& shown.original is Some == read.original is Some
    &&& shown.original matches Some(text) ==> text@ == read.original->0@
    &&& shown.modified is Some == read.modified is Some
    &&& shown.modified matches Some(text) ==> text@ == read.modified->0@
    &&& shown.rows@.len() == read.rows@.len()
    &&& forall|i: int| 0 <= i < read.rows@.len() ==> holds_row(#[trigger] shown.rows@[i], read.rows@[i])
    &&& shown.binary == read.binary
    &&& shown.truncated == read.truncated
}

/// The comparison on screen is always the one that was read last: an awaited answer
/// is what is shown, whatever was shown before, and an error is shown with its
/// message. The surface is published where what was shown is not what was read.
pub proof fn law_comparison_shows_last_read(
    before: BlackholesApp,
    after: BlackholesApp,
    root: Seq<char>,
    request_id: u64,
    result: Result<RepositoryFileDiff, String>,
)
    requires
        BlackholesApp::answers_diff(before, after, root, request_id, result),
        before.active_diff matches Some(diff) && components(diff.root@) == components(root)
            && diff.request_id == request_id,
        before.active_diff->0.refresh_pending ==> (before.file_explorer.root matches Some(open)
            ==> components(open@) == components(root)),
    ensures
        after.active_diff is Some,
        after.active_diff->0.change == before.active_diff->0.change,
        result matches Ok(read) ==> (after.active_diff->0.load_state matches FileDiffLoadState::Ready(
            shown,
        ) && holds_diff(shown, read)),
        result matches Err(message) ==> (
        after.active_diff->0.load_state matches FileDiffLoadState::Error(shown) && shown@
            == message@),
        before.active_diff->0.load_state matches FileDiffLoadState::Ready(shown) && result matches Ok(
            read,
        ) && !holds_diff(shown, read) ==> exists|i: int|
            before.effects@.len() <= i < after.effects@.len() && #[trigger] after.effects@[i]
                == Effect::Redraw,
        before.active_diff->0.load_state !is Ready && result is Ok ==> exists|i: int|
            before.effects@.len() <= i < after.effects@.len() && #[trigger] after.effects@[i]
                == Effect::Redraw,
{
    let diff = before.active_diff->0;
    let answered = if diff.refresh_pending {
        choose|answered: BlackholesApp| #[trigger]
            BlackholesApp::diff_read(before, answered, result) && BlackholesApp::refreshes_diff(
                answered,
                after,
            )
    } else {
        after
    };
    assert(BlackholesApp::diff_read(before, answered, result));
    let shown = answered.active_diff->0;
    if diff.refresh_pending {
        assert(BlackholesApp::opens_diff(answered, after, diff.change));
    }
    if let Ok(read) = result {
        if let FileDiffLoadState::Ready(current) = diff.load_state {
            lemma_same_is_held(current, read);
        }
        lemma_same_is_held(read, read);
    }
    if !diff_nothing_new(diff.load_state, result) {
        let at = answered.effects@.len() - 1;
        assert(answered.effects@[at] == Effect::Redraw);
        assert(after.effects@[at] == Effect::Redraw);
    }
}

proof fn lemma_same_is_held(shown: RepositoryFileDiff, read: RepositoryFileDiff)
    ensures
        same_diff(shown, read) <==> holds_diff(shown, read),
{
    assert forall|i: int|
        0 <= i < read.rows@.len() && i < shown.rows@.len() implies same_row(
        #[trigger] shown.rows@[i],
        read.rows@[i],
    ) == holds_row(shown.rows@[i], read.rows@[i]) by {}
    if holds_diff(shown, read) {
        assert forall|i: int| 0 <= i < shown.rows@.len() implies same_row(
            #[trigger] shown.rows@[i],
            read.rows@[i],
        ) by {
            assert(holds_row(shown.rows@[i], read.rows@[i]));
        }
    }
    if same_diff(shown, read) {
        assert forall|i: int| 0 <= i < read.rows@.len() implies holds_row(
            #[trigger] shown.rows@[i],
            read.rows@[i],
        ) by {
            assert(same_row(shown.rows@[i], read.rows@[i]));
        }
    }
}

/// Opening a comparison asks for its change and shows it: the file is selected, the
/// change is the open one, and its read is the one that is waited for. Only while
/// the same file is being read already is it left at that read, and read again when
/// that ends.
pub proof fn law_opened_comparison(before: BlackholesApp, after: BlackholesApp, change: RepositoryChange)
    requires
        BlackholesApp::opens_diff(before, after, change),
        before.file_explorer.root is Some,
    ensures
        after.active_diff matches Some(diff) && diff.change == change && diff.request_in_flight,
        components(after.active_diff->0.root@) == components(before.file_explorer.root->0@),
        after.effects@.len() == before.effects@.len() ==> {
            &&& before.active_diff matches Some(diff) && diff.request_in_flight && components(
                diff.change.path@,
            ) == components(change.path@)
            &&& after.active_diff->0.refresh_pending
        },
        after.effects@.len() > before.effects@.len() ==> {
            &&& after.effects@[before.effects@.len() as int] matches Effect::ReadDiff {
                root,
                change: asked,
                request_id,
            } && asked == change && root == before.file_explorer.root->0 && request_id
                == after.active_diff->0.request_id
            &&& after.file_explorer.selected == Some(change.path)
        },
        !(before.active_diff matches Some(diff) && components(diff.change.path@) == components(
            change.path@,
        ) && components(diff.root@) == components(before.file_explorer.root->0@)) ==> {
            &&& after.effects@.len() > before.effects@.len()
            &&& after.active_diff->0.load_state is Loading
            &&& after.effects@.last() == Effect::Redraw
        },
        before.effects@.is_prefix_of(after.effects@),
{
    assert(before.effects@ =~= after.effects@.take(before.effects@.len() as int));
}

/// A read that was asked for while another was under way starts when that ends, so
/// that the last change of a file is never missed.
pub proof fn law_comparison_read_again(
    before: BlackholesApp,
    marked: BlackholesApp,
    after: BlackholesApp,
    result: Result<RepositoryFileDiff, String>,
)
    requires
        before.file_explorer.root is Some,
        before.active_diff matches Some(diff) && diff.request_in_flight && components(diff.root@)
            == components(before.file_explorer.root->0@),
        BlackholesApp::refreshes_diff(before, marked),
        BlackholesApp::answers_diff(
            marked,
            after,
            before.file_explorer.root->0@,
            before.active_diff->0.request_id,
            result,
        ),
    ensures
        marked.effects@ == before.effects@,
        after.active_diff matches Some(diff) && diff.request_in_flight && !diff.refresh_pending,
        exists|i: int|
            before.effects@.len() <= i < after.effects@.len() && (
            #[trigger] after.effects@[i] matches Effect::ReadDiff { change, request_id, .. } && change
                == before.active_diff->0.change && request_id == after.active_diff->0.request_id),
{
    let answered = choose|answered: BlackholesApp| #[trigger]
        BlackholesApp::diff_read(marked, answered, result) && BlackholesApp::refreshes_diff(
            answered,
            after,
        );
    let at = answered.effects@.len() as int;
    assert(BlackholesApp::opens_diff(answered, after, before.active_diff->0.change));
    assert(after.effects@[at] is ReadDiff);
}

/// Closing the comparison leaves none open, and it stays closed whatever was being
/// read for it.
pub proof fn law_closed_comparison(
    before: BlackholesApp,
    closed: BlackholesApp,
    after: BlackholesApp,
    root: Seq<char>,
    request_id: u64,
    result: Result<RepositoryFileDiff, String>,
)
    requires
        BlackholesApp::closes_diff(before, closed),
        BlackholesApp::answers_diff(closed, after, root, request_id, result),
    ensures
        closed.active_diff is None,
        after == closed,
{
}

} // verus!
