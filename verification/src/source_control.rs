//! The local changes of the open root, and the search in its files.
use vstd::prelude::*;
use vstd::string::*;

use crate::app::{BlackholesApp, FileDocument};
use crate::clock::fresh_id;
use crate::documents::{flush_requests, flushed};
use crate::effects::Effect;
use crate::history::{Reveal, SourceControl};
use crate::labels::NoteSaveState;
use crate::model::text_of;
use crate::paths::{components, join, joined, same_path};
use crate::search::first_where;
use crate::text::same_text;

verus! {

// ---------------------------------------------------------------------------
// Staging and committing
// ---------------------------------------------------------------------------
/// What can be done with the local changes.
#[derive(Clone, Copy, Debug, PartialEq, Eq, Structural)]
pub enum LocalOperation {
    Stage,
    Unstage,
    Commit,
}

/// The operation of a name.
pub open spec fn local_operation(name: Seq<char>) -> Option<LocalOperation> {
    if name == "stage"@ {
        Some(LocalOperation::Stage)
    } else if name == "unstage"@ {
        Some(LocalOperation::Unstage)
    } else if name == "commit"@ {
        Some(LocalOperation::Commit)
    } else {
        None
    }
}

fn operation_of(name: &str) -> (result: Option<LocalOperation>)
    ensures
        result == local_operation(name@),
{
    if same_text(name, "stage") {
        Some(LocalOperation::Stage)
    } else if same_text(name, "unstage") {
        Some(LocalOperation::Unstage)
    } else if same_text(name, "commit") {
        Some(LocalOperation::Commit)
    } else {
        None
    }
}

/// The document is of the root and not all of it is saved.
pub open spec fn is_unsaved_in(file: Option<FileDocument>, root: Seq<char>) -> bool {
    file matches Some(document) && components(document.root@) == components(root) && (document.dirty
        || document.save_state != NoteSaveState::Saved)
}

/// Why an operation on the local changes is not started, if so: another one is
/// under way, it is unknown, or the file that it would stage is not saved yet.
pub open spec fn local_refusal(app: BlackholesApp, operation: Seq<char>) -> Option<Seq<char>> {
    if app.source_control.busy {
        Some("Wait for the current Git operation to finish."@)
    } else {
        match local_operation(operation) {
            None => Some("Unknown Git operation."@),
            Some(LocalOperation::Commit) => None,
            Some(_) => if is_unsaved_in(app.active_file, app.explorer_root()@) {
                Some("The file is still saving. Retry when it has finished."@)
            } else {
                None
            },
        }
    }
}

/// The operation is refused because the open document is not saved.
pub open spec fn waits_for_save(app: BlackholesApp, operation: Seq<char>) -> bool {
    &&& !app.source_control.busy
    &&& local_operation(operation) matches Some(operation) && operation != LocalOperation::Commit
    &&& is_unsaved_in(app.active_file, app.explorer_root()@)
}

/// The answer that the page gets.
pub open spec fn is_local_result(
    effect: Effect,
    root: Seq<char>,
    ticket: Seq<char>,
    operation: Seq<char>,
    created: Option<Seq<char>>,
    failure: Option<Seq<char>>,
) -> bool {
    effect matches Effect::SourceControlResult {
        root: of,
        ticket: to,
        operation: done,
        created: commit,
        failure: error,
    } && of@ == root && to@ == ticket && done@ == operation && text_of(commit) == created
        && text_of(error) == failure
}

impl BlackholesApp {
    /// `after` is `before` with an operation refused. What waits to be saved is
    /// handed over for saving first.
    pub open spec fn refuses_local(
        before: Self,
        after: Self,
        ticket: Seq<char>,
        operation: Seq<char>,
        answer: Effect,
    ) -> bool {
        let waits = waits_for_save(before, operation);
        &&& is_local_result(
            answer,
            before.explorer_root()@,
            ticket,
            operation,
            None,
            local_refusal(before, operation),
        )
        &&& after.effects@ == before.effects@ + (if waits {
            flush_requests(before.active_file)
        } else {
            seq![]
        }) + seq![answer]
        &&& after == (BlackholesApp {
            active_file: if waits {
                flushed(before.active_file)
            } else {
                before.active_file
            },
            effects: after.effects,
            ..before
        })
    }

    /// The request of an operation on the local changes.
    pub open spec fn is_local_request(
        &self,
        request: Effect,
        ticket: Seq<char>,
        operation: LocalOperation,
        token: Seq<char>,
        path: Option<Seq<char>>,
        message: Option<Seq<char>>,
    ) -> bool {
        match operation {
            LocalOperation::Commit => request matches Effect::Commit {
                root,
                ticket: to,
                token: under,
                description,
            } && root == self.explorer_root() && to@ == ticket && under@ == token && description@
                == match message {
                Some(message) => message,
                None => ""@,
            },
            _ => request matches Effect::Stage { root, ticket: to, token: under, file, staged }
                && root == self.explorer_root() && to@ == ticket && under@ == token && text_of(file)
                == path && staged == (operation == LocalOperation::Stage),
        }
    }

    /// `after` is `before` with an operation on the local changes under way.
    pub open spec fn starts_local(before: Self, after: Self, request: Effect) -> bool {
        &&& after.effects@ == before.effects@ + seq![after.guards_update(), request]
            + before.publishes_workbench() + seq![Effect::Redraw]
        &&& after == (BlackholesApp {
            source_control: SourceControl { busy: true, ..before.source_control },
            effects: after.effects,
            ..before
        })
    }

    /// `after` is `before` with an operation on the local changes under way or
    /// refused.
    pub open spec fn acts_locally(
        before: Self,
        after: Self,
        ticket: Seq<char>,
        operation: Seq<char>,
        token: Seq<char>,
        path: Option<Seq<char>>,
        message: Option<Seq<char>>,
    ) -> bool {
        if before.file_explorer.root is None {
            after == before
        } else if local_refusal(before, operation) is Some {
            exists|answer: Effect| #[trigger]
                Self::refuses_local(before, after, ticket, operation, answer)
        } else {
            exists|request: Effect| #[trigger]
                before.is_local_request(
                    request,
                    ticket,
                    local_operation(operation)->0,
                    token,
                    path,
                    message,
                ) && Self::starts_local(before, after, request)
        }
    }

    /// Stages or unstages a file, or commits what is staged.
    pub fn source_control_action(
        &mut self,
        ticket: String,
        operation: String,
        token: String,
        path: Option<String>,
        message: Option<String>,
    )
        ensures
            Self::acts_locally(
                *old(self),
                *final(self),
                ticket@,
                operation@,
                token@,
                text_of(path),
                text_of(message),
            ),
    {
        let ghost before = *self;
        let root = match &self.file_explorer.root {
            Some(root) => root.clone(),
            None => {
                return ;
            },
        };
        let known = operation_of(operation.as_str());
        let unsaved: bool = match &self.active_file {
            Some(document) => same_path(document.root.as_str(), root.as_str()) && (document.dirty
                || document.save_state != NoteSaveState::Saved),
            None => false,
        };
        let reject: Option<&str> = if self.source_control.busy {
            Some("Wait for the current Git operation to finish.")
        } else {
            match known {
                None => Some("Unknown Git operation."),
                Some(LocalOperation::Commit) => None,
                Some(_) => if unsaved {
                    self.flush_active_file();
                    Some("The file is still saving. Retry when it has finished.")
                } else {
                    None
                },
            }
        };
        if let Some(error) = reject {
            let ghost flushes = if waits_for_save(before, operation@) {
                flush_requests(before.active_file)
            } else {
                seq![]
            };
            assert(self.effects@ =~= before.effects@ + flushes);
            let failure = error.to_string();
            let answer = Effect::SourceControlResult {
                root,
                ticket,
                operation,
                created: None,
                failure: Some(failure),
            };
            let ghost sent = answer;
            self.emit(answer);
            assert(self.effects@ =~= before.effects@ + flushes + seq![sent]);
            assert(Self::refuses_local(before, *self, ticket@, operation@, sent));
            return ;
        }
        self.source_control.busy = true;
        self.sync_update_guard();
        let ghost given = message;
        let request = match known {
            Some(LocalOperation::Commit) => {
                let description = match message {
                    Some(message) => message,
                    None => "".to_string(),
                };
                Effect::Commit { root, ticket, token, description }
            },
            _ => {
                let staged: bool = match known {
                    Some(LocalOperation::Stage) => true,
                    _ => false,
                };
                Effect::Stage { root, ticket, token, file: path, staged }
            },
        };
        let ghost asked = request;
        self.emit(request);
        self.publish_workbench_surface();
        self.notify();
        assert(self.effects@ =~= before.effects@ + seq![self.guards_update(), asked]
            + before.publishes_workbench() + seq![Effect::Redraw]);
        assert(before.is_local_request(
            asked,
            ticket@,
            local_operation(operation@)->0,
            token@,
            text_of(path),
            text_of(given),
        ));
    }

    /// The operation is over and the page was answered.
    pub open spec fn ends_local(before: Self, after: Self, answer: Effect) -> bool {
        &&& after.effects@ == before.effects@ + seq![after.guards_update(), answer]
        &&& after == (BlackholesApp {
            source_control: SourceControl { busy: false, ..before.source_control },
            effects: after.effects,
            ..before
        })
    }

    /// `after` is `before` without what was read of the local changes and without
    /// the comparison of one.
    pub open spec fn drops_local_diff(before: Self, after: Self) -> bool {
        after == (BlackholesApp {
            source_control: SourceControl { scm_info: None, ..before.source_control },
            active_diff: match before.active_diff {
                Some(diff) if diff.comparison is None => None,
                _ => before.active_diff,
            },
            ..before
        })
    }

    /// `after` is `before` with what the operation changed read again, where the
    /// root is still open.
    pub open spec fn rereads_after_local(before: Self, after: Self, root: Seq<char>) -> bool {
        if before.has_root(root) {
            exists|dropped: BlackholesApp, read: BlackholesApp| #[trigger]
                Self::drops_local_diff(before, dropped) && #[trigger] Self::asks_for_changes(
                    dropped,
                    read,
                ) && Self::asks_for_history(read, after, false)
        } else {
            after == before
        }
    }

    /// `after` is `before` after an operation on the local changes ended.
    pub open spec fn finishes_locally(
        before: Self,
        after: Self,
        root: Seq<char>,
        ticket: Seq<char>,
        operation: Seq<char>,
        result: Result<Option<String>, String>,
    ) -> bool {
        exists|answer: Effect, ended: BlackholesApp, read: BlackholesApp|
            is_local_result(
                answer,
                root,
                ticket,
                operation,
                match result {
                    Ok(created) => text_of(created),
                    Err(_) => None,
                },
                match result {
                    Ok(_) => None,
                    Err(message) => Some(message@),
                },
            ) && #[trigger] Self::ends_local(before, ended, answer) && #[trigger]
                Self::rereads_after_local(ended, read, root) && Self::shows_workbench(read, after)
    }

    /// An operation on the local changes ended; a commit ends with its id.
    pub fn finish_source_control_action(
        &mut self,
        root: &str,
        ticket: &str,
        operation: &str,
        result: Result<Option<String>, String>,
    )
        ensures
            Self::finishes_locally(
                *old(self),
                *final(self),
                root@,
                ticket@,
                operation@,
                result,
            ),
    {
        let ghost before = *self;
        let ghost given = result;
        self.source_control.busy = false;
        self.sync_update_guard();
        let (created, failure): (Option<String>, Option<String>) = match result {
            Ok(created) => (created, None),
            Err(message) => (None, Some(message)),
        };
        let answer = Effect::SourceControlResult {
            root: root.to_string(),
            ticket: ticket.to_string(),
            operation: operation.to_string(),
            created,
            failure,
        };
        let ghost sent = answer;
        self.emit(answer);
        let ghost ended = *self;
        assert(self.effects@ =~= before.effects@ + seq![self.guards_update(), sent]);
        assert(Self::ends_local(before, ended, sent));
        if self.is_root(root) {
            self.source_control.scm_info = None;
            let local: bool = match &self.active_diff {
                Some(diff) => diff.comparison.is_none(),
                None => false,
            };
            if local {
                self.active_diff = None;
            }
            let ghost dropped = *self;
            assert(Self::drops_local_diff(ended, dropped));
            self.request_repository_changes();
            let ghost read = *self;
            assert(Self::asks_for_changes(dropped, read));
            self.request_git_history(false);
        }
        assert(Self::rereads_after_local(ended, *self, root@));
        self.show_workbench();
    }
}

// ---------------------------------------------------------------------------
// Searching
// ---------------------------------------------------------------------------
#[derive(Clone, Copy, Debug, PartialEq, Eq, Structural)]
pub struct SearchMatch {
    pub line: usize,
    pub column: usize,
    pub end_column: usize,
}

#[derive(Debug)]
pub struct SearchFile {
    pub path: String,
    pub matches: Vec<SearchMatch>,
}

/// What a search found. Only the places are read here: the rest goes as it is to
/// the page.
#[derive(Debug)]
pub struct SearchResult {
    pub files: Vec<SearchFile>,
    pub rest: String,
}

/// What is searched for, and how. Only the query is read here: the rest goes as
/// it is to the search and back to the page.
#[derive(Debug)]
pub struct SearchOptions {
    pub query: String,
    pub rest: String,
}

impl SearchOptions {
    /// A copy of the options.
    pub fn duplicate(&self) -> (result: SearchOptions)
        ensures
            result == *self,
    {
        SearchOptions { query: self.query.clone(), rest: self.rest.clone() }
    }
}

/// The search that was asked for last. `options` is nothing before the first.
#[derive(Debug)]
pub struct SearchState {
    pub options: Option<SearchOptions>,
    pub request: String,
    pub result: Option<SearchResult>,
    pub error: Option<String>,
    pub loading: bool,
}

impl SearchState {
    /// Nothing was searched for.
    pub open spec fn is_idle(&self) -> bool {
        &&& self.options is None
        &&& self.request@ == ""@
        &&& self.result is None
        &&& self.error is None
        &&& !self.loading
    }

    /// The search before anything was searched for.
    pub fn new() -> (result: Self)
        ensures
            result.is_idle(),
    {
        SearchState {
            options: None,
            request: "".to_string(),
            result: None,
            error: None,
            loading: false,
        }
    }
}

impl BlackholesApp {
    /// `after` is `before` with another search in place of the last one. Without
    /// anything to search for nothing is searched.
    pub open spec fn searches(
        before: Self,
        after: Self,
        request: String,
        options: SearchOptions,
    ) -> bool {
        &&& after.effects@ == before.effects@ + seq![Effect::CancelSearch] + (
        if options.query@.len() == 0 {
            seq![]
        } else {
            seq![Effect::SearchFiles { root: before.explorer_root(), ticket: request, options }]
        }) + before.publishes_workbench() + seq![Effect::Redraw]
        &&& after == (BlackholesApp {
            source_control: SourceControl {
                search: SearchState {
                    options: Some(options),
                    request,
                    result: None,
                    error: None,
                    loading: options.query@.len() > 0,
                },
                ..before.source_control
            },
            effects: after.effects,
            ..before
        })
    }

    /// Searches in the files of the open root.
    pub fn search_repository(&mut self, request: String, options: SearchOptions)
        ensures
            if old(self).file_explorer.root is None {
                *final(self) == *old(self)
            } else {
                Self::searches(*old(self), *final(self), request, options)
            },
    {
        let ghost before = *self;
        let root = match &self.file_explorer.root {
            Some(root) => root.clone(),
            None => {
                return ;
            },
        };
        let loading: bool = options.query.as_str().unicode_len() > 0;
        self.emit(Effect::CancelSearch);
        self.source_control.search =
        SearchState {
            options: Some(options.duplicate()),
            request: request.clone(),
            result: None,
            error: None,
            loading,
        };
        if loading {
            self.emit(Effect::SearchFiles { root, ticket: request, options });
        }
        self.publish_workbench_surface();
        self.notify();
        assert(self.effects@ =~= before.effects@ + seq![Effect::CancelSearch] + (
        if options.query@.len() == 0 {
            seq![]
        } else {
            seq![Effect::SearchFiles { root, ticket: request, options }]
        }) + before.publishes_workbench() + seq![Effect::Redraw]);
    }

    /// The search is the last one and of the open root.
    pub open spec fn awaits_search(&self, root: Seq<char>, request: Seq<char>) -> bool {
        self.has_root(root) && self.source_control.search.request@ == request
    }

    /// `after` is `before` with the outcome of a search, if that is awaited.
    pub open spec fn ends_search(
        before: Self,
        after: Self,
        root: Seq<char>,
        request: Seq<char>,
        result: Result<SearchResult, String>,
    ) -> bool {
        if !before.awaits_search(root, request) {
            after == before
        } else {
            &&& after.effects@ == before.effects@ + before.publishes_workbench() + seq![
                Effect::Redraw,
            ]
            &&& after == (BlackholesApp {
                source_control: SourceControl {
                    search: match result {
                        Ok(found) => SearchState {
                            loading: false,
                            result: Some(found),
                            ..before.source_control.search
                        },
                        Err(message) => SearchState {
                            loading: false,
                            error: Some(message),
                            ..before.source_control.search
                        },
                    },
                    ..before.source_control
                },
                effects: after.effects,
                ..before
            })
        }
    }

    /// A search ended. What another search found changes nothing.
    pub fn finish_search(
        &mut self,
        root: &str,
        request: &str,
        result: Result<SearchResult, String>,
    )
        ensures
            Self::ends_search(*old(self), *final(self), root@, request@, result),
    {
        let ghost before = *self;
        if !self.is_root(root) || !same_text(self.source_control.search.request.as_str(), request) {
            return ;
        }
        self.source_control.search.loading = false;
        match result {
            Ok(found) => {
                self.source_control.search.result = Some(found);
            },
            Err(message) => {
                self.source_control.search.error = Some(message);
            },
        }
        self.publish_workbench_surface();
        self.notify();
        assert(self.effects@ =~= before.effects@ + before.publishes_workbench() + seq![
            Effect::Redraw,
        ]);
    }
}

pub open spec fn found_in(path: Seq<char>) -> spec_fn(SearchFile) -> bool {
    |file: SearchFile| file.path@ == path
}

pub open spec fn found_at(line: usize, column: usize) -> spec_fn(SearchMatch) -> bool {
    |found: SearchMatch| found.line == line && found.column == column
}

impl SearchResult {
    /// The match at a place: the first at that place in the first file of that path.
    pub open spec fn match_at(&self, path: Seq<char>, line: usize, column: usize) -> Option<SearchMatch> {
        match first_where(self.files@, found_in(path), 0) {
            Some(file) => match first_where(
                self.files@[file].matches@,
                found_at(line, column),
                0,
            ) {
                Some(at) => Some(self.files@[file].matches@[at]),
                None => None,
            },
            None => None,
        }
    }

    /// The match at a place.
    pub fn find_match(&self, path: &str, line: usize, column: usize) -> (result: Option<SearchMatch>)
        ensures
            result == self.match_at(path@, line, column),
    {
        let mut file: usize = 0;
        while file < self.files.len()
            invariant
                file <= self.files@.len(),
                first_where(self.files@, found_in(path@), 0) == first_where(
                    self.files@,
                    found_in(path@),
                    file as int,
                ),
            decreases self.files@.len() - file,
        {
            if same_text(self.files[file].path.as_str(), path) {
                let matches = &self.files[file].matches;
                let mut at: usize = 0;
                while at < matches.len()
                    invariant
                        file < self.files@.len(),
                        first_where(self.files@, found_in(path@), 0) == Some(file as int),
                        matches@ == self.files@[file as int].matches@,
                        at <= matches@.len(),
                        first_where(matches@, found_at(line, column), 0) == first_where(
                            matches@,
                            found_at(line, column),
                            at as int,
                        ),
                    decreases matches@.len() - at,
                {
                    if matches[at].line == line && matches[at].column == column {
                        return Some(matches[at]);
                    }
                    at += 1;
                }
                return None;
            }
            file += 1;
        }
        None
    }
}

impl BlackholesApp {
    /// The match that the last search found at a place.
    pub open spec fn search_match(
        &self,
        request: Seq<char>,
        path: Seq<char>,
        line: usize,
        column: usize,
    ) -> Option<SearchMatch> {
        match self.source_control.search.result {
            Some(result) if self.source_control.search.request@ == request => result.match_at(
                path,
                line,
                column,
            ),
            _ => None,
        }
    }

    /// `after` is `before` with a place to show.
    pub open spec fn points_at(before: Self, after: Self, path: Seq<char>, found: SearchMatch) -> bool {
        &&& after.source_control.reveal matches Some(reveal) && reveal.path@ == path && reveal.line
            == found.line && reveal.column == found.column && reveal.end_column == found.end_column
        &&& after == (BlackholesApp {
            source_control: SourceControl {
                reveal: after.source_control.reveal,
                ..before.source_control
            },
            ..before
        })
    }

    /// `after` is `before` with a match opened in the editor.
    pub open spec fn opens_match(before: Self, after: Self, path: String, found: SearchMatch) -> bool {
        exists|opened: BlackholesApp, revealed: BlackholesApp| #[trigger]
            Self::opens_file(before, opened, path) && #[trigger] Self::points_at(
                opened,
                revealed,
                path@,
                found,
            ) && Self::shows_workbench(revealed, after)
    }

    /// Opens what the last search found at a place.
    pub fn open_search_match(&mut self, request: &str, path: &str, line: usize, column: usize)
        ensures
            match old(self).search_match(request@, path@, line, column) {
                Some(found) if old(self).file_explorer.root is Some => exists|file: String|
                    file@ == joined(old(self).explorer_root()@, path@) && #[trigger]
                        Self::opens_match(*old(self), *final(self), file, found),
                _ => *final(self) == *old(self),
            },
    {
        let ghost before = *self;
        if !same_text(self.source_control.search.request.as_str(), request) {
            return ;
        }
        let found = match &self.source_control.search.result {
            Some(result) => result.find_match(path, line, column),
            None => None,
        };
        let found = match found {
            Some(found) => found,
            None => {
                return ;
            },
        };
        let root = match &self.file_explorer.root {
            Some(root) => root.clone(),
            None => {
                return ;
            },
        };
        let file = join(root.as_str(), path);
        self.open_file_in_editor(file.clone());
        let ghost opened = *self;
        assert(Self::opens_file(before, opened, file));
        let ghost target = file;
        let id = fresh_id();
        self.source_control.reveal =
        Some(Reveal { id, path: file, line, column, end_column: found.end_column });
        let ghost revealed = *self;
        assert(found.line == line && found.column == column) by {
            lemma_match_place(before.source_control.search.result->0, path@, line, column);
        }
        assert(Self::points_at(opened, revealed, target@, found));
        self.show_workbench();
        assert(Self::opens_match(before, *self, target, found));
    }
}

/// The match at a place is at that place.
proof fn lemma_match_place(result: SearchResult, path: Seq<char>, line: usize, column: usize)
    ensures
        result.match_at(path, line, column) matches Some(found) ==> found.line == line
            && found.column == column,
{
    if let Some(file) = first_where(result.files@, found_in(path), 0) {
        crate::search::lemma_first_where(
            result.files@[file].matches@,
            found_at(line, column),
            0,
        );
    }
}

// ---------------------------------------------------------------------------
// What operations ask for
// ---------------------------------------------------------------------------
/// The request changes what git has staged or committed.
pub open spec fn changes_git(effect: Effect) -> bool {
    effect is Stage || effect is Commit
}

/// Among the requests exactly one changes what git has, and it is the wanted one.
pub open spec fn only_change(requests: Seq<Effect>, wanted: spec_fn(Effect) -> bool) -> bool {
    &&& exists|i: int| 0 <= i < requests.len() && wanted(#[trigger] requests[i])
    &&& forall|i: int, j: int|
        0 <= i < requests.len() && 0 <= j < requests.len() && changes_git(#[trigger] requests[i])
            && changes_git(#[trigger] requests[j]) ==> i == j
    &&& forall|i: int|
        0 <= i < requests.len() && changes_git(#[trigger] requests[i]) ==> wanted(requests[i])
}

/// The request stages the file, or everything where none is named, under the token
/// that the page has; or takes it out again.
pub open spec fn stages(
    root: Seq<char>,
    ticket: Seq<char>,
    token: Seq<char>,
    path: Option<Seq<char>>,
    staged: bool,
) -> spec_fn(Effect) -> bool {
    |effect: Effect|
        effect matches Effect::Stage { root: of, ticket: to, token: under, file, staged: done }
            && of@ == root && to@ == ticket && under@ == token && (match path {
            Some(path) => file matches Some(file) && file@ == path,
            None => file is None,
        }) && done == staged
}

/// The request commits what is staged, with the message.
pub open spec fn commits(root: Seq<char>, ticket: Seq<char>, token: Seq<char>, message: Seq<char>) -> spec_fn(
    Effect,
) -> bool {
    |effect: Effect|
        effect matches Effect::Commit { root: of, ticket: to, token: under, description } && of@
            == root && to@ == ticket && under@ == token && description@ == message
}

/// With a root open, nothing under way and every file of it saved, "stage" stages
/// and "unstage" takes out again, what the page names and nothing else; "commit"
/// commits with the given message; and any other word changes nothing.
pub proof fn law_local_operations(
    before: BlackholesApp,
    after: BlackholesApp,
    ticket: Seq<char>,
    operation: Seq<char>,
    token: Seq<char>,
    path: Option<Seq<char>>,
    message: Option<Seq<char>>,
)
    requires
        BlackholesApp::acts_locally(before, after, ticket, operation, token, path, message),
        before.file_explorer.root is Some,
        !before.source_control.busy,
        before.active_file matches Some(file) ==> !file.dirty && file.save_state
            == NoteSaveState::Saved,
    ensures
        ({
            let root = before.file_explorer.root->0@;
            let asked = BlackholesApp::asked(before, after);
            &&& operation == "stage"@ ==> only_change(
                asked,
                stages(root, ticket, token, path, true),
            ) && after.source_control.busy
            &&& operation == "unstage"@ ==> only_change(
                asked,
                stages(root, ticket, token, path, false),
            ) && after.source_control.busy
            &&& operation == "commit"@ ==> only_change(
                asked,
                commits(
                    root,
                    ticket,
                    token,
                    match message {
                        Some(message) => message,
                        None => Seq::empty(),
                    },
                ),
            ) && after.source_control.busy
            &&& operation != "stage"@ && operation != "unstage"@ && operation != "commit"@ ==> (
            forall|i: int| 0 <= i < asked.len() ==> !changes_git(#[trigger] asked[i]))
                && !after.source_control.busy
        }),
{
    reveal_strlit("stage");
    reveal_strlit("unstage");
    reveal_strlit("commit");
    reveal_strlit("");
    assert(""@ =~= Seq::<char>::empty());
    assert("stage"@.len() != "unstage"@.len());
    assert("stage"@.len() != "commit"@.len());
    assert("unstage"@.len() != "commit"@.len());
    let asked = BlackholesApp::asked(before, after);
    if local_refusal(before, operation) is None {
        let request = choose|request: Effect| #[trigger]
            before.is_local_request(
                request,
                ticket,
                local_operation(operation)->0,
                token,
                path,
                message,
            ) && BlackholesApp::starts_local(before, after, request);
        assert(asked =~= seq![after.guards_update(), request] + before.publishes_workbench() + seq![
            Effect::Redraw,
        ]);
        assert(asked[1] == request);
    } else {
        let answer = choose|answer: Effect| #[trigger]
            BlackholesApp::refuses_local(before, after, ticket, operation, answer);
        assert(asked =~= seq![answer]);
    }
}

/// While another operation is under way, or the open file is not saved yet, nothing
/// is staged or taken out; the page is told so in answer to its request, and what
/// was typed is handed over for saving.
pub proof fn law_local_operation_refused(
    before: BlackholesApp,
    after: BlackholesApp,
    ticket: Seq<char>,
    operation: Seq<char>,
    token: Seq<char>,
    path: Option<Seq<char>>,
    message: Option<Seq<char>>,
)
    requires
        BlackholesApp::acts_locally(before, after, ticket, operation, token, path, message),
        before.file_explorer.root is Some,
        before.source_control.busy || (operation != "commit"@ && (before.active_file matches Some(file)
            && components(file.root@) == components(before.file_explorer.root->0@) && (file.dirty
            || file.save_state != NoteSaveState::Saved))),
    ensures
        ({
            let asked = BlackholesApp::asked(before, after);
            &&& forall|i: int| 0 <= i < asked.len() ==> !changes_git(#[trigger] asked[i])
            &&& after.source_control == before.source_control
            &&& asked.len() > 0
            &&& asked.last() matches Effect::SourceControlResult {
                root,
                ticket: to,
                operation: of,
                created,
                failure,
            } && root@ == before.file_explorer.root->0@ && to@ == ticket && of@ == operation
                && created is None && failure is Some
        }),
{
    let answer = choose|answer: Effect| #[trigger]
        BlackholesApp::refuses_local(before, after, ticket, operation, answer);
    let asked = BlackholesApp::asked(before, after);
    if waits_for_save(before, operation) {
        assert(asked =~= flush_requests(before.active_file) + seq![answer]);
    } else {
        assert(asked =~= seq![answer]);
    }
}

/// The end of an operation frees git for the next one, and the page gets its answer:
/// the commit that was made, or why there is none. Where the root is still open its
/// changes and its history are read again, and the comparison of a local change,
/// which may be gone, is closed; that of a commit stays.
pub proof fn law_local_operation_ended(
    before: BlackholesApp,
    after: BlackholesApp,
    root: Seq<char>,
    ticket: Seq<char>,
    operation: Seq<char>,
    result: Result<Option<String>, String>,
)
    requires
        BlackholesApp::finishes_locally(before, after, root, ticket, operation, result),
    ensures
        !after.source_control.busy,
        ({
            let asked = BlackholesApp::asked(before, after);
            &&& asked.len() > 1
            &&& asked[1] matches Effect::SourceControlResult {
                root: of,
                ticket: to,
                operation: done,
                created,
                failure,
            } && of@ == root && to@ == ticket && done@ == operation && (match result {
                Ok(Some(commit)) => failure is None && (created matches Some(made) && made@
                    == commit@),
                Ok(None) => failure is None && created is None,
                Err(error) => created is None && (failure matches Some(told) && told@ == error@),
            })
        }),
        before.file_explorer.root matches Some(open) && components(open@) == components(root) ==> {
            &&& after.file_explorer.changes.in_flight
            &&& after.source_control.history.loading
            &&& after.source_control.scm_info is None
            &&& after.active_diff == (if before.active_diff matches Some(diff)
                && diff.comparison is Some {
                before.active_diff
            } else {
                None
            })
        },
        !(before.file_explorer.root matches Some(open) && components(open@) == components(root)) ==> {
            &&& after.active_diff == before.active_diff
            &&& after.file_explorer == before.file_explorer
            &&& after.source_control.history == before.source_control.history
        },
        after.active_file == before.active_file,
{
    let (answer, ended, read) = choose|
        answer: Effect,
        ended: BlackholesApp,
        read: BlackholesApp,
    |
        is_local_result(
            answer,
            root,
            ticket,
            operation,
            match result {
                Ok(created) => text_of(created),
                Err(_) => None,
            },
            match result {
                Ok(_) => None,
                Err(message) => Some(message@),
            },
        ) && #[trigger] BlackholesApp::ends_local(before, ended, answer) && #[trigger]
            BlackholesApp::rereads_after_local(ended, read, root) && BlackholesApp::shows_workbench(
            read,
            after,
        );
    let start = before.effects@.len() as int;
    assert(ended.effects@[start + 1] == answer);
    if ended.has_root(root) {
        let (dropped, asked) = choose|dropped: BlackholesApp, asked: BlackholesApp| #[trigger]
            BlackholesApp::drops_local_diff(ended, dropped) && #[trigger]
            BlackholesApp::asks_for_changes(dropped, asked) && BlackholesApp::asks_for_history(
                asked,
                read,
                false,
            );
        assert(asked.effects@[start + 1] == answer);
        if !asked.source_control.history.loading {
            let history = choose|history: crate::ids::Id| #[trigger]
                BlackholesApp::begins_history(asked, read, false, history);
            assert(read.effects@[start + 1] == answer);
        }
    }
    assert(read.effects@[start + 1] == answer);
    assert(after.effects@[start + 1] == answer);
}

// ---------------------------------------------------------------------------
// What a search leads to
// ---------------------------------------------------------------------------
/// A search takes the place of the one before: that is given up, nothing of it is
/// shown any more, and what is searched for is exactly what was asked for; without a
/// query nothing is searched.
pub proof fn law_search_replaces(
    before: BlackholesApp,
    after: BlackholesApp,
    request: String,
    options: SearchOptions,
)
    requires
        BlackholesApp::searches(before, after, request, options),
    ensures
        ({
            let asked = BlackholesApp::asked(before, after);
            &&& asked.len() > 0 && asked[0] == Effect::CancelSearch
            &&& after.source_control.search.result is None
            &&& after.source_control.search.error is None
            &&& after.source_control.search.request == request
            &&& after.source_control.search.options == Some(options)
            &&& after.source_control.search.loading == (options.query@.len() > 0)
            &&& options.query@.len() > 0 ==> asked.len() > 1 && asked[1] == (Effect::SearchFiles {
                root: before.explorer_root(),
                ticket: request,
                options,
            })
            &&& options.query@.len() == 0 ==> forall|i: int|
                0 <= i < asked.len() ==> (#[trigger] asked[i]) !is SearchFiles
        }),
        after.source_control.history == before.source_control.history,
        after.active_file == before.active_file,
{
    let asked = BlackholesApp::asked(before, after);
    assert(asked =~= seq![Effect::CancelSearch] + (if options.query@.len() == 0 {
        seq![]
    } else {
        seq![Effect::SearchFiles { root: before.explorer_root(), ticket: request, options }]
    }) + before.publishes_workbench() + seq![Effect::Redraw]);
}

/// Opening a match opens its file, under the root, and points at the place of the
/// match.
pub proof fn law_match_opened(before: BlackholesApp, after: BlackholesApp, path: String, found: SearchMatch)
    requires
        BlackholesApp::opens_match(before, after, path, found),
        before.file_explorer.root is Some,
    ensures
        after.active_file matches Some(file) && components(file.path@) == components(path@),
        after.source_control.reveal matches Some(reveal) && reveal.path@ == path@ && reveal.line
            == found.line && reveal.column == found.column && reveal.end_column == found.end_column,
        after.active_diff is None,
{
    let (opened, revealed) = choose|opened: BlackholesApp, revealed: BlackholesApp| #[trigger]
        BlackholesApp::opens_file(before, opened, path) && #[trigger] BlackholesApp::points_at(
            opened,
            revealed,
            path@,
            found,
        ) && BlackholesApp::shows_workbench(revealed, after);
    assert(opened.active_file is Some);
}

/// A search ends with what it found or with why it failed, and no longer loads;
/// what a search brings that is not the last one asked for changes nothing.
pub proof fn law_search_ended(
    before: BlackholesApp,
    after: BlackholesApp,
    root: Seq<char>,
    request: Seq<char>,
    result: Result<SearchResult, String>,
)
    requires
        BlackholesApp::ends_search(before, after, root, request, result),
    ensures
        before.source_control.search.request@ != request || before.file_explorer.root is None
            ==> after == before,
        before.awaits_search(root, request) ==> {
            &&& !after.source_control.search.loading
            &&& (result matches Ok(found) ==> after.source_control.search.result == Some(found)
                && after.source_control.search.error == before.source_control.search.error)
            &&& (result matches Err(message) ==> after.source_control.search.error == Some(message)
                && after.source_control.search.result == before.source_control.search.result)
            &&& after.source_control.search.request == before.source_control.search.request
            &&& BlackholesApp::asked(before, after).last() is Redraw
        },
        after.file_explorer == before.file_explorer,
        after.active_file == before.active_file,
{
}

/// The match that is found at a place is at that place, in the file of that path.
pub proof fn law_match_found(
    result: SearchResult,
    path: Seq<char>,
    line: usize,
    column: usize,
    file: int,
    at: int,
)
    ensures
        result.match_at(path, line, column) matches Some(found) ==> found.line == line
            && found.column == column && exists|i: int|
            0 <= i < result.files@.len() && (#[trigger] result.files@[i]).path@ == path
                && result.files@[i].matches@.contains(found),
        0 <= file < result.files@.len() && result.files@[file].path@ == path && (forall|i: int|
            0 <= i < file ==> (#[trigger] result.files@[i]).path@ != path) && 0 <= at
            < result.files@[file].matches@.len() && result.files@[file].matches@[at].line == line
            && result.files@[file].matches@[at].column == column ==> result.match_at(
            path,
            line,
            column,
        ) is Some,
{
    let in_file = found_in(path);
    let here = found_at(line, column);
    crate::search::lemma_first_where(result.files@, in_file, 0);
    if let Some(place) = first_where(result.files@, in_file, 0) {
        crate::search::lemma_first_where(result.files@[place].matches@, here, 0);
        assert(result.files@[place].path@ == path);
    }
    if 0 <= file < result.files@.len() && result.files@[file].path@ == path && (forall|i: int|
        0 <= i < file ==> (#[trigger] result.files@[i]).path@ != path) {
        assert(in_file(result.files@[file]));
        if 0 <= at < result.files@[file].matches@.len() && result.files@[file].matches@[at].line
            == line && result.files@[file].matches@[at].column == column {
            assert(here(result.files@[file].matches@[at]));
        }
    }
}

/// A match is taken only from the search that is shown.
pub proof fn law_match_of_search(
    app: BlackholesApp,
    request: Seq<char>,
    path: Seq<char>,
    line: usize,
    column: usize,
)
    ensures
        app.search_match(request, path, line, column) matches Some(found) ==> found.line == line
            && found.column == column && app.source_control.search.request@ == request,
        app.source_control.search.result is None ==> app.search_match(
            request,
            path,
            line,
            column,
        ) is None,
{
    if let Some(result) = app.source_control.search.result {
        law_match_found(result, path, line, column, 0, 0);
    }
}

} // verus!
