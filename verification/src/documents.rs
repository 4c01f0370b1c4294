//! The open document: reading, editing and saving.
use vstd::prelude::*;
use vstd::string::*;

use crate::app::{
    BlackholesApp, FileDocument, FileDocumentLoadState, FileExplorerMode, Status, Surface,
};
use crate::effects::{Effect, FileDocumentSource};
use crate::ids::Id;
use crate::labels::{file_editor_language, language_of, NoteSaveState};
use crate::model::{find_workspace, workspace_at, ProjectTask};
use crate::paths::{components, components_of, is_under, lies_under, same_path};
use crate::text::join4;

verus! {

/// How many columns a tab takes in the editor.
pub const FILE_EDITOR_TAB_SIZE: usize = 4;

/// How long a change in the editor waits before it is saved, in milliseconds.
pub const FILE_SAVE_DELAY: u64 = 650;

/// What happens in the editor of the window.
#[derive(Clone, Copy, Debug, PartialEq, Eq, Structural)]
pub enum EditorEvent {
    Change,
    Blur,
    Focus,
    PressEnter,
}

/// The revision after a further change; the last one stays.
pub open spec fn later(revision: u64) -> u64 {
    if revision == u64::MAX {
        revision
    } else {
        (revision + 1) as u64
    }
}

fn later_revision(revision: u64) -> (result: u64)
    ensures
        result == later(revision),
{
    if revision == u64::MAX {
        revision
    } else {
        revision + 1
    }
}

// ---------------------------------------------------------------------------
// Saving
// ---------------------------------------------------------------------------
/// The document has changes in its editor that were not saved.
pub open spec fn has_unsaved_text(file: Option<FileDocument>) -> bool {
    file matches Some(document) && document.dirty && document.editor is Some
}

/// The document after its changes were handed over for saving.
pub open spec fn flushed(file: Option<FileDocument>) -> Option<FileDocument> {
    match file {
        Some(document) if has_unsaved_text(file) => Some(
            FileDocument {
                revision: later(document.revision),
                save_state: NoteSaveState::Saving,
                ..document
            },
        ),
        other => other,
    }
}

/// The request that saves the changes of a document.
pub open spec fn flush_requests(file: Option<FileDocument>) -> Seq<Effect> {
    match file {
        Some(document) if has_unsaved_text(file) => seq![
            Effect::SaveFile {
                root: document.root,
                path: document.path,
                source: document.source,
                revision: later(document.revision),
                content: document.editor->0,
                report_when_inactive: true,
            },
        ],
        _ => seq![],
    }
}

/// What saving a document involves: the project, and the tasks that get a copy.
#[derive(Debug)]
pub enum FileSaveOperation {
    Repository,
    ProjectInstructions { workspace: usize },
    ProjectTaskInstructions { workspace: usize, tasks: Vec<usize> },
}

/// The task keeps a copy of the shared instructions of the project.
pub open spec fn gets_instructions(app: BlackholesApp, workspace_id: Id, task: ProjectTask) -> bool {
    task.workspace_id == workspace_id && is_under(task.worktree_root_path@, app.task_workspaces@)
}

/// The positions of the tasks among the first `count` that get the shared
/// instructions of a project.
pub open spec fn instructed_tasks(app: BlackholesApp, workspace_id: Id, count: int) -> Seq<usize>
    decreases count,
{
    if count <= 0 {
        seq![]
    } else if gets_instructions(app, workspace_id, app.tasks@[count - 1]) {
        instructed_tasks(app, workspace_id, count - 1).push((count - 1) as usize)
    } else {
        instructed_tasks(app, workspace_id, count - 1)
    }
}

impl BlackholesApp {
    /// `after` is `before` with the unsaved changes handed over for saving.
    pub open spec fn flushes(before: Self, after: Self) -> bool {
        &&& after.active_file == flushed(before.active_file)
        &&& after.effects@ == before.effects@ + flush_requests(before.active_file)
        &&& after == (BlackholesApp {
            active_file: after.active_file,
            effects: after.effects,
            ..before
        })
    }

    /// Hands the unsaved changes of the open document over for saving.
    pub fn flush_active_file(&mut self)
        ensures
            Self::flushes(*old(self), *final(self)),
    {
        let ghost before = *self;
        let mut request: Option<Effect> = None;
        if let Some(document) = &mut self.active_file {
            if document.dirty {
                if let Some(content) = &document.editor {
                    let content = content.clone();
                    document.revision = later_revision(document.revision);
                    document.save_state = NoteSaveState::Saving;
                    request =
                    Some(
                        Effect::SaveFile {
                            root: document.root.clone(),
                            path: document.path.clone(),
                            source: document.source,
                            revision: document.revision,
                            content,
                            report_when_inactive: true,
                        },
                    );
                }
            }
        }
        match request {
            Some(effect) => self.emit(effect),
            None => {
                assert(self.effects@ =~= before.effects@ + Seq::<Effect>::empty());
            },
        }
    }

    /// The tasks that get the shared instructions of a project; the host skips
    /// those whose directory is gone.
    pub(crate) fn find_instructed_tasks(&self, workspace_id: Id) -> (result: Vec<usize>)
        ensures
            result@ == instructed_tasks(*self, workspace_id, self.tasks@.len() as int),
    {
        let mut result: Vec<usize> = Vec::new();
        let mut index: usize = 0;
        while index < self.tasks.len()
            invariant
                index <= self.tasks@.len(),
                result@ == instructed_tasks(*self, workspace_id, index as int),
            decreases self.tasks@.len() - index,
        {
            let task = &self.tasks[index];
            if task.workspace_id == workspace_id && lies_under(
                task.worktree_root_path.as_str(),
                self.task_workspaces.as_str(),
            ) {
                result.push(index);
            }
            index += 1;
        }
        result
    }

    /// What saving a document involves: an error where its project is gone.
    pub fn file_save_operation(&self, source: FileDocumentSource) -> (result: Result<
        FileSaveOperation,
        &'static str,
    >)
        ensures
            match source {
                FileDocumentSource::Repository => result matches Ok(FileSaveOperation::Repository),
                FileDocumentSource::ProjectInstructions(workspace_id) => match workspace_at(
                    self.workspaces@,
                    workspace_id,
                ) {
                    Some(at) => result matches Ok(FileSaveOperation::ProjectInstructions { workspace })
                        && workspace == at,
                    None => result matches Err(error) && error@
                        == "The project is no longer available"@,
                },
                FileDocumentSource::ProjectTaskInstructions(workspace_id) => match workspace_at(
                    self.workspaces@,
                    workspace_id,
                ) {
                    Some(at) => result matches Ok(
                        FileSaveOperation::ProjectTaskInstructions { workspace, tasks },
                    ) && workspace == at && tasks@ == instructed_tasks(
                        *self,
                        workspace_id,
                        self.tasks@.len() as int,
                    ),
                    None => result matches Err(error) && error@
                        == "The project is no longer available"@,
                },
            },
    {
        match source {
            FileDocumentSource::Repository => Ok(FileSaveOperation::Repository),
            FileDocumentSource::ProjectInstructions(workspace_id) => match find_workspace(
                &self.workspaces,
                workspace_id,
            ) {
                Some(workspace) => Ok(FileSaveOperation::ProjectInstructions { workspace }),
                None => Err("The project is no longer available"),
            },
            FileDocumentSource::ProjectTaskInstructions(workspace_id) => match find_workspace(
                &self.workspaces,
                workspace_id,
            ) {
                Some(workspace) => Ok(
                    FileSaveOperation::ProjectTaskInstructions {
                        workspace,
                        tasks: self.find_instructed_tasks(workspace_id),
                    },
                ),
                None => Err("The project is no longer available"),
            },
        }
    }

    /// The open document is the one at the path, with an editor.
    pub open spec fn edits(&self, path: Seq<char>) -> bool {
        self.active_file matches Some(document) && components(document.path@) == components(path)
            && document.editor is Some
    }

    /// `after` is `before` with the text of the document at the path, where it is
    /// in the editor, to be saved after the delay.
    pub open spec fn queues_save(
        before: Self,
        after: Self,
        path: String,
        content: String,
        delay_milliseconds: u64,
    ) -> bool {
        if before.edits(path@) {
            let document = before.active_file->0;
            let revision = later(document.revision);
            &&& after.active_file == Some(
                FileDocument {
                    editor: Some(content),
                    revision,
                    dirty: true,
                    save_state: NoteSaveState::Saving,
                    ..document
                },
            )
            &&& after.effects@ == before.effects@ + seq![
                Effect::SaveFileLater { path, revision, delay_milliseconds },
                Effect::Redraw,
            ]
            &&& after == (BlackholesApp {
                active_file: after.active_file,
                effects: after.effects,
                ..before
            })
        } else {
            after == before
        }
    }

    /// The text in the editor changed, or the editor lost the focus: the document
    /// is to be saved after the delay.
    pub fn queue_file_save(&mut self, path: String, content: String, delay_milliseconds: u64)
        ensures
            Self::queues_save(*old(self), *final(self), path, content, delay_milliseconds),
    {
        let ghost before = *self;
        let current: bool = match &self.active_file {
            Some(document) => document.editor.is_some() && same_path(
                document.path.as_str(),
                path.as_str(),
            ),
            None => false,
        };
        if !current {
            return ;
        }
        let mut revision: u64 = 0;
        if let Some(document) = &mut self.active_file {
            document.revision = later_revision(document.revision);
            document.dirty = true;
            document.save_state = NoteSaveState::Saving;
            document.editor = Some(content);
            revision = document.revision;
        }
        self.emit(Effect::SaveFileLater { path, revision, delay_milliseconds });
        self.notify();
        assert(self.effects@ =~= before.effects@ + seq![
            Effect::SaveFileLater { path, revision, delay_milliseconds },
            Effect::Redraw,
        ]);
    }

    /// `after` is `before` once the delay of a save is over: the document is saved
    /// unless it changed again or another one is open.
    pub open spec fn saves_queued(before: Self, after: Self, path: Seq<char>, revision: u64) -> bool {
        if before.edits(path) && before.active_file->0.revision == revision {
            let document = before.active_file->0;
            Self::requests(
                before,
                after,
                seq![
                    Effect::SaveFile {
                        root: document.root,
                        path: document.path,
                        source: document.source,
                        revision,
                        content: document.editor->0,
                        report_when_inactive: false,
                    },
                ],
            )
        } else {
            after == before
        }
    }

    /// The delay of a save is over.
    pub fn save_queued_file(&mut self, path: &str, revision: u64)
        ensures
            Self::saves_queued(*old(self), *final(self), path@, revision),
    {
        let mut request: Option<Effect> = None;
        if let Some(document) = &self.active_file {
            if document.revision == revision && same_path(document.path.as_str(), path) {
                if let Some(content) = &document.editor {
                    request =
                    Some(
                        Effect::SaveFile {
                            root: document.root.clone(),
                            path: document.path.clone(),
                            source: document.source,
                            revision,
                            content: content.clone(),
                            report_when_inactive: false,
                        },
                    );
                }
            }
        }
        if let Some(effect) = request {
            self.emit(effect);
        }
    }

    /// `after` is `before` with another text in the editor of the document that was
    /// read for the request.
    pub open spec fn sets_content(before: Self, after: Self, request_id: u64, content: String) -> bool {
        match before.active_file {
            Some(document) if document.request_id == request_id && document.editor is Some => {
                &&& after.effects@ == before.effects@ + seq![
                    Effect::SetEditorText { path: document.path, content },
                ]
                &&& after == (BlackholesApp {
                    active_file: Some(FileDocument { editor: Some(content), ..document }),
                    effects: after.effects,
                    ..before
                })
            },
            _ => after == before,
        }
    }

    /// The text of the editor is set from the central surface. It goes to the
    /// editor of the window, whose report of the change leads to a save.
    pub fn update_file_content(&mut self, request_id: u64, content: String)
        ensures
            Self::sets_content(*old(self), *final(self), request_id, content),
    {
        let mut request: Option<Effect> = None;
        if let Some(document) = &mut self.active_file {
            if document.request_id == request_id && document.editor.is_some() {
                request =
                Some(
                    Effect::SetEditorText { path: document.path.clone(), content: content.clone() },
                );
                document.editor = Some(content);
            }
        }
        if let Some(effect) = request {
            self.emit(effect);
        }
    }

    /// `after` is `before` with what happened in the editor of a document noted.
    pub open spec fn notes_event(
        before: Self,
        after: Self,
        path: String,
        content: String,
        event: EditorEvent,
    ) -> bool {
        match event {
            EditorEvent::Change => Self::queues_save(before, after, path, content, FILE_SAVE_DELAY),
            EditorEvent::Blur => Self::queues_save(before, after, path, content, 0),
            EditorEvent::Focus | EditorEvent::PressEnter => after == before,
        }
    }

    /// Something happened in the editor of a document, which holds the text. A
    /// change is saved after a while, and at once where the editor loses the focus.
    pub fn handle_editor_event(&mut self, path: String, content: String, event: EditorEvent)
        ensures
            Self::notes_event(*old(self), *final(self), path, content, event),
    {
        match event {
            EditorEvent::Change => self.queue_file_save(path, content, FILE_SAVE_DELAY),
            EditorEvent::Blur => self.queue_file_save(path, content, 0),
            EditorEvent::Focus | EditorEvent::PressEnter => {},
        }
    }
}

// ---------------------------------------------------------------------------
// Opening
// ---------------------------------------------------------------------------
/// A document that is being read.
pub open spec fn is_fresh_document(
    document: FileDocument,
    root: Seq<char>,
    path: Seq<char>,
    source: FileDocumentSource,
    language: Seq<char>,
    request_id: u64,
) -> bool {
    &&& document.root@ == root
    &&& document.path@ == path
    &&& document.source == source
    &&& document.language@ == language
    &&& document.editor is None
    &&& document.load_state is Loading
    &&& document.revision == 0
    &&& !document.dirty
    &&& document.save_state == NoteSaveState::Saved
    &&& document.request_id == request_id
}

fn fresh_document(
    root: String,
    path: String,
    source: FileDocumentSource,
    language: &str,
    request_id: u64,
) -> (result: FileDocument)
    ensures
        is_fresh_document(result, root@, path@, source, language@, request_id),
{
    FileDocument {
        root,
        path,
        source,
        language: language.to_string(),
        editor: None,
        load_state: FileDocumentLoadState::Loading,
        revision: 0,
        dirty: false,
        save_state: NoteSaveState::Saved,
        request_id,
    }
}

/// The document is the one at the path.
pub open spec fn is_at(file: Option<FileDocument>, path: Seq<char>) -> bool {
    file matches Some(document) && components(document.path@) == components(path)
}

impl BlackholesApp {
    /// `after` is `before` with a file of the open root in the editor. A file
    /// that is open already is only brought to the front; else the changes of
    /// the open document are saved first.
    pub open spec fn opens_file(before: Self, after: Self, path: String) -> bool {
        if before.file_explorer.root is None {
            after == before
        } else if is_at(before.active_file, path@) {
            &&& after.effects@ == before.effects@ + after.publishes_workbench() + seq![
                Effect::Redraw,
            ]
            &&& after == (BlackholesApp {
                active_diff: None,
                surface: before.surface.plain(),
                effects: after.effects,
                ..before
            })
        } else {
            let request_id = Self::next(before.next_file_request_id);
            &&& after.active_file matches Some(document) && is_fresh_document(
                document,
                before.explorer_root()@,
                path@,
                FileDocumentSource::Repository,
                language_of(path@),
                request_id,
            )
            &&& after.effects@ == before.effects@ + flush_requests(before.active_file) + seq![
                Effect::ReadFile {
                    root: before.explorer_root(),
                    path,
                    source: FileDocumentSource::Repository,
                    request_id,
                },
            ] + after.publishes_workbench() + seq![Effect::Redraw]
            &&& after == (BlackholesApp {
                active_file: after.active_file,
                active_diff: None,
                next_file_request_id: request_id,
                surface: before.surface.plain(),
                effects: after.effects,
                ..before
            })
        }
    }

    /// Opens a file of the open root in the editor.
    pub fn open_file_in_editor(&mut self, path: String)
        ensures
            Self::opens_file(*old(self), *final(self), path),
    {
        let root = match &self.file_explorer.root {
            Some(root) => root.clone(),
            None => {
                return ;
            },
        };
        let ghost before = *self;
        self.active_diff = None;
        let open: bool = match &self.active_file {
            Some(document) => same_path(document.path.as_str(), path.as_str()),
            None => false,
        };
        if open {
            self.surface.clear();
            self.publish_workbench_surface();
            self.notify();
            assert(self.effects@ =~= before.effects@ + self.publishes_workbench() + seq![
                Effect::Redraw,
            ]);
            return ;
        }
        self.flush_active_file();
        self.next_file_request_id = self.next_file_request_id.wrapping_add(1);
        let request_id: u64 = self.next_file_request_id;
        self.active_file =
        Some(
            fresh_document(
                root.clone(),
                path.clone(),
                FileDocumentSource::Repository,
                file_editor_language(path.as_str()),
                request_id,
            ),
        );
        self.surface.clear();
        self.emit(
            Effect::ReadFile { root, path, source: FileDocumentSource::Repository, request_id },
        );
        self.publish_workbench_surface();
        self.notify();
        assert(self.effects@ =~= before.effects@ + flush_requests(before.active_file) + seq![
            Effect::ReadFile { root, path, source: FileDocumentSource::Repository, request_id },
        ] + self.publishes_workbench() + seq![Effect::Redraw]);
    }

    /// The open document is the one that the request was for.
    pub open spec fn awaits_file(&self, root: Seq<char>, path: Seq<char>, request_id: u64) -> bool {
        self.active_file matches Some(document) && components(document.root@) == components(root)
            && components(document.path@) == components(path) && document.request_id == request_id
    }

    /// `after` is `before` after a document was read. What was read for another
    /// document changes nothing.
    pub open spec fn answers_file(
        before: Self,
        after: Self,
        root: Seq<char>,
        path: Seq<char>,
        request_id: u64,
        result: Result<String, String>,
    ) -> bool {
        if before.awaits_file(root, path, request_id) {
            &&& after.active_file == Some(
                FileDocument {
                    load_state: match result {
                        Ok(content) => FileDocumentLoadState::Ready(content),
                        Err(error) => FileDocumentLoadState::Error(error),
                    },
                    ..before.active_file->0
                },
            )
            &&& after.effects@ == before.effects@ + before.publishes_workbench() + seq![
                Effect::Redraw,
            ]
            &&& after == (BlackholesApp {
                active_file: after.active_file,
                effects: after.effects,
                ..before
            })
        } else {
            after == before
        }
    }

    /// A document was read.
    pub fn finish_file_request(
        &mut self,
        root: &str,
        path: &str,
        request_id: u64,
        result: Result<String, String>,
    )
        ensures
            Self::answers_file(*old(self), *final(self), root@, path@, request_id, result),
    {
        let ghost before = *self;
        let current: bool = match &self.active_file {
            Some(document) => document.request_id == request_id && same_path(
                document.root.as_str(),
                root,
            ) && same_path(document.path.as_str(), path),
            None => false,
        };
        if !current {
            return ;
        }
        if let Some(document) = &mut self.active_file {
            document.load_state =
            match result {
                Ok(content) => FileDocumentLoadState::Ready(content),
                Err(error) => FileDocumentLoadState::Error(error),
            };
        }
        self.publish_workbench_surface();
        self.notify();
        assert(self.effects@ =~= before.effects@ + before.publishes_workbench() + seq![
            Effect::Redraw,
        ]);
    }

    /// A document was read and has no editor yet.
    pub open spec fn needs_editor(&self) -> bool {
        self.active_file matches Some(document) && document.editor is None
            && document.load_state is Ready
    }

    /// `after` is `before` with the document that was read in an editor.
    pub open spec fn gives_editor(before: Self, after: Self) -> bool {
        if before.needs_editor() {
            let document = before.active_file->0;
            let content = document.load_state->Ready_0;
            &&& after.effects@ == before.effects@ + seq![
                Effect::CreateEditor {
                    path: document.path,
                    language: document.language,
                    content,
                    tab_size: FILE_EDITOR_TAB_SIZE,
                },
            ]
            &&& after == (BlackholesApp {
                active_file: Some(
                    FileDocument {
                        editor: Some(content),
                        load_state: FileDocumentLoadState::Open,
                        ..document
                    },
                ),
                effects: after.effects,
                ..before
            })
        } else {
            after == before
        }
    }

    /// Gives a document that was read its editor; whether there is a new one.
    pub fn ensure_file_editor(&mut self) -> (created: bool)
        ensures
            created == old(self).needs_editor(),
            Self::gives_editor(*old(self), *final(self)),
    {
        let mut request: Option<Effect> = None;
        if let Some(document) = &mut self.active_file {
            if document.editor.is_none() {
                if let FileDocumentLoadState::Ready(content) = &document.load_state {
                    let text = content.clone();
                    request =
                    Some(
                        Effect::CreateEditor {
                            path: document.path.clone(),
                            language: document.language.clone(),
                            content: content.clone(),
                            tab_size: FILE_EDITOR_TAB_SIZE,
                        },
                    );
                    document.editor = Some(text);
                    document.load_state = FileDocumentLoadState::Open;
                }
            }
        }
        match request {
            Some(effect) => {
                self.emit(effect);
                true
            },
            None => false,
        }
    }

    /// `after` is `before` with the open document saved and closed.
    pub open spec fn closes_file(before: Self, after: Self) -> bool {
        &&& after.effects@ == before.effects@ + flush_requests(before.active_file) + seq![
            Effect::Redraw,
        ]
        &&& after == (BlackholesApp {
            active_file: None,
            surface: Surface { show_terminal: false, ..before.surface },
            effects: after.effects,
            ..before
        })
    }

    /// Saves and closes the open document.
    pub fn close_file_editor(&mut self)
        ensures
            Self::closes_file(*old(self), *final(self)),
    {
        self.flush_active_file();
        self.active_file = None;
        self.surface.show_terminal = false;
        self.notify();
    }
}

// ---------------------------------------------------------------------------
// After a save
// ---------------------------------------------------------------------------
impl BlackholesApp {
    /// The open document is the one that was saved, unchanged since.
    pub open spec fn is_saved_file(&self, path: Seq<char>, revision: u64) -> bool {
        self.active_file matches Some(document) && components(document.path@) == components(path)
            && document.revision == revision
    }

    /// The state with the outcome of a save noted on the document it was of.
    pub open spec fn with_save_noted(self, path: Seq<char>, revision: u64, saved: bool) -> Self {
        if self.is_saved_file(path, revision) {
            BlackholesApp {
                active_file: Some(
                    FileDocument {
                        save_state: if saved {
                            NoteSaveState::Saved
                        } else {
                            NoteSaveState::Error
                        },
                        dirty: self.active_file->0.dirty && !saved,
                        ..self.active_file->0
                    },
                ),
                ..self
            }
        } else {
            self
        }
    }

    /// `after` is `before` with the local changes read again, where those of the
    /// root are shown, and with them the comparison of the file.
    pub open spec fn shows_saved_change(before: Self, after: Self, root: Seq<char>, path: Seq<char>) -> bool {
        if components_of(before.file_explorer.root) == Some(components(root)) && before.file_explorer.mode
            == FileExplorerMode::Changes {
            exists|asked: BlackholesApp| #[trigger]
                Self::asks_for_changes(before, asked) && if before.active_diff matches Some(diff)
                    && components(diff.change.path@) == components(path) {
                    Self::refreshes_diff(asked, after)
                } else {
                    after == asked
                }
        } else {
            after == before
        }
    }

    fn show_saved_change(&mut self, root: &str, path: &str)
        ensures
            Self::shows_saved_change(*old(self), *final(self), root@, path@),
    {
        let shown: bool = match &self.file_explorer.root {
            Some(current) => same_path(current.as_str(), root),
            None => false,
        };
        if shown && self.file_explorer.mode == FileExplorerMode::Changes {
            self.request_repository_changes();
            let compared: bool = match &self.active_diff {
                Some(diff) => same_path(diff.change.path.as_str(), path),
                None => false,
            };
            if compared {
                self.refresh_active_repository_diff();
            }
        }
    }

    /// `after` is `before` after a save ended. The document is clean only where it
    /// did not change since. Its repository is looked at again after a success; a
    /// failure is shown unless the document changed or was left, and even then where
    /// `report_when_inactive`.
    pub open spec fn finishes_save(
        before: Self,
        after: Self,
        repository_root: String,
        path: Seq<char>,
        revision: u64,
        result: Result<(), String>,
        report_when_inactive: bool,
    ) -> bool {
        match result {
            Ok(_) => exists|noted: BlackholesApp, shown: BlackholesApp| #[trigger]
                Self::refreshes_saved(
                    before.with_save_noted(path, revision, true),
                    noted,
                    repository_root,
                ) && #[trigger] Self::shows_saved_change(noted, shown, repository_root@, path)
                    && Self::requests(shown, after, seq![Effect::Redraw]),
            Err(error) => {
                let noted = before.with_save_noted(path, revision, false);
                &&& after.effects@ == before.effects@ + seq![Effect::Redraw]
                &&& if before.is_saved_file(path, revision) || report_when_inactive {
                    &&& after.status matches Some(status) && status.error && status.message@
                        == "Could not save "@ + path + ": "@ + error@
                    &&& after == (BlackholesApp {
                        status: after.status,
                        effects: after.effects,
                        ..noted
                    })
                } else {
                    after == (BlackholesApp { effects: after.effects, ..noted })
                }
            },
        }
    }

    /// A save ended.
    pub fn finish_file_save(
        &mut self,
        repository_root: String,
        path: &str,
        revision: u64,
        result: Result<(), String>,
        report_when_inactive: bool,
    )
        ensures
            Self::finishes_save(
                *old(self),
                *final(self),
                repository_root,
                path@,
                revision,
                result,
                report_when_inactive,
            ),
    {
        let ghost before = *self;
        let saved: bool = match &result {
            Ok(_) => true,
            Err(_) => false,
        };
        let current: bool = match &self.active_file {
            Some(document) => document.revision == revision && same_path(
                document.path.as_str(),
                path,
            ),
            None => false,
        };
        if current {
            if let Some(document) = &mut self.active_file {
                if saved {
                    document.save_state = NoteSaveState::Saved;
                    document.dirty = false;
                } else {
                    document.save_state = NoteSaveState::Error;
                }
            }
        }
        assert(*self == before.with_save_noted(path@, revision, saved));
        match result {
            Ok(_) => {
                let root = repository_root.clone();
                self.refresh_saved_repository_git_summary(repository_root);
                let ghost noted = *self;
                self.show_saved_change(root.as_str(), path);
                let ghost shown = *self;
                self.notify();
                assert(Self::shows_saved_change(noted, shown, root@, path@));
            },
            Err(error) => {
                if current || report_when_inactive {
                    self.status =
                    Some(
                        Status {
                            message: join4("Could not save ", path, ": ", error.as_str()),
                            error: true,
                        },
                    );
                }
                self.notify();
            },
        }
    }
}

/// What is told when the shared instructions of a project did not reach a task.
pub fn copy_failure(title: &str, error: &str) -> (result: String)
    ensures
        result@ == "Could not copy the shared task instructions to task '"@ + title@ + "': "@
            + error@,
{
    join4("Could not copy the shared task instructions to task '", title, "': ", error)
}

/// What is told when changed instructions of a project did not reach a task.
pub fn refresh_failure(title: &str, error: &str) -> (result: String)
    ensures
        result@ == "Could not update the shared instructions for task '"@ + title@ + "': "@
            + error@,
{
    join4("Could not update the shared instructions for task '", title, "': ", error)
}

/// The request to save is the unsaved text of the document.
pub open spec fn saves_text(effect: Effect, document: FileDocument) -> bool {
    effect matches Effect::SaveFile { root, path, source, content, .. } && root == document.root
        && path == document.path && source == document.source && Some(content) == document.editor
}

/// Opening another file loses nothing that was typed: the text of the document
/// that was open is handed over for saving.
pub proof fn law_text_saved_on_open(before: BlackholesApp, after: BlackholesApp, path: String)
    requires
        BlackholesApp::opens_file(before, after, path),
        before.file_explorer.root is Some,
        before.active_file matches Some(document) && document.dirty && document.editor is Some
            && components(document.path@) != components(path@),
    ensures
        saves_text(after.effects@[before.effects@.len() as int], before.active_file->0),
{
}

/// Closing the editor loses nothing that was typed: the text of the document that
/// was open is handed over for saving.
pub proof fn law_text_saved_on_close(before: BlackholesApp, after: BlackholesApp)
    requires
        BlackholesApp::closes_file(before, after),
        before.active_file matches Some(document) && document.dirty && document.editor is Some,
    ensures
        saves_text(after.effects@[before.effects@.len() as int], before.active_file->0),
        after.active_file is None,
{
}

/// A file that is opened is in the editor and being read; a file that is in it
/// already stays as it is, with what was typed. The comparison goes, and no page is in
/// front.
pub proof fn law_file_opened(before: BlackholesApp, after: BlackholesApp, path: String)
    requires
        BlackholesApp::opens_file(before, after, path),
        before.file_explorer.root is Some,
    ensures
        after.active_file matches Some(document) && components(document.path@) == components(path@),
        after.active_diff is None,
        !after.surface.show_terminal && !after.surface.show_settings,
        (before.active_file matches Some(document) && components(document.path@) == components(
            path@,
        )) ==> after.active_file == before.active_file,
        !(before.active_file matches Some(document) && components(document.path@) == components(
            path@,
        )) ==> {
            &&& after.active_file->0.load_state is Loading
            &&& !after.active_file->0.dirty
            &&& after.active_file->0.editor is None
            &&& exists|i: int|
                before.effects@.len() <= i < after.effects@.len() && #[trigger] after.effects@[i]
                    == (Effect::ReadFile {
                    root: before.file_explorer.root->0,
                    path,
                    source: FileDocumentSource::Repository,
                    request_id: after.active_file->0.request_id,
                })
        },
{
    if !is_at(before.active_file, path@) {
        let at = before.effects@.len() + flush_requests(before.active_file).len();
        assert(after.effects@[at as int] is ReadFile);
    }
}

/// What was read for the file that is open is what it holds: its text, or why there
/// is none. What was read for another file, or earlier, changes nothing.
pub proof fn law_file_read(
    before: BlackholesApp,
    after: BlackholesApp,
    root: Seq<char>,
    path: Seq<char>,
    request_id: u64,
    result: Result<String, String>,
)
    requires
        BlackholesApp::answers_file(before, after, root, path, request_id, result),
    ensures
        ({
            let awaited = before.active_file matches Some(document) && document.request_id
                == request_id && components(document.path@) == components(path) && components(
                document.root@,
            ) == components(root);
            &&& !awaited ==> after == before
            &&& awaited ==> {
                &&& after.active_file->0.path == before.active_file->0.path
                &&& after.active_file->0.editor == before.active_file->0.editor
                &&& match result {
                    Ok(text) => after.active_file->0.load_state == FileDocumentLoadState::Ready(text),
                    Err(error) => after.active_file->0.load_state == FileDocumentLoadState::Error(
                        error,
                    ),
                }
                &&& after.effects@.last() == Effect::Redraw
            }
        }),
{
}

/// What is typed is saved: the change makes the document unsaved, and once its delay is
/// over its text is handed over, unless something was typed since; then the later text
/// is saved in its turn.
pub proof fn law_typed_text_saved(
    before: BlackholesApp,
    typed: BlackholesApp,
    after: BlackholesApp,
    path: String,
    content: String,
    delay: u64,
    revision: u64,
)
    requires
        BlackholesApp::queues_save(before, typed, path, content, delay),
        before.active_file matches Some(document) && document.editor is Some && components(
            document.path@,
        ) == components(path@),
        BlackholesApp::saves_queued(typed, after, path@, revision),
    ensures
        typed.active_file matches Some(document) && document.dirty && document.editor == Some(content)
            && document.save_state == NoteSaveState::Saving,
        before.active_file->0.revision < u64::MAX ==> typed.active_file->0.revision
            > before.active_file->0.revision,
        exists|i: int|
            before.effects@.len() <= i < typed.effects@.len() && #[trigger] typed.effects@[i]
                == (Effect::SaveFileLater {
                path,
                revision: typed.active_file->0.revision,
                delay_milliseconds: delay,
            }),
        revision == typed.active_file->0.revision ==> {
            &&& after.effects@.len() == typed.effects@.len() + 1
            &&& after.effects@.last() matches Effect::SaveFile { path: to, content: text, .. } && to
                == before.active_file->0.path && text == content
        },
        revision != typed.active_file->0.revision ==> after == typed,
        after.active_file == typed.active_file,
{
    assert(typed.effects@[before.effects@.len() as int] is SaveFileLater);
}

/// A document counts as saved only where the save was of what it holds now: a save of
/// an earlier text, or of another document, leaves it as it is. A save that failed
/// leaves it unsaved, and says so.
pub proof fn law_saved_when_current(
    before: BlackholesApp,
    after: BlackholesApp,
    repository_root: String,
    path: Seq<char>,
    revision: u64,
    result: Result<(), String>,
    report: bool,
)
    requires
        BlackholesApp::finishes_save(before, after, repository_root, path, revision, result, report),
    ensures
        ({
            let current = before.active_file matches Some(document) && components(document.path@)
                == components(path) && document.revision == revision;
            &&& !current ==> after.active_file == before.active_file
            &&& current && result is Ok ==> {
                &&& after.active_file matches Some(document) && !document.dirty
                    && document.save_state == NoteSaveState::Saved
            }
            &&& current && result is Err ==> {
                &&& after.active_file matches Some(document) && document.dirty
                    == before.active_file->0.dirty && document.save_state == NoteSaveState::Error
            }
            &&& current ==> after.active_file->0.editor == before.active_file->0.editor
                && after.active_file->0.revision == before.active_file->0.revision
                && after.active_file->0.path == before.active_file->0.path
            &&& result is Err && (current || report) ==> (after.status matches Some(status)
                && status.error)
            &&& result is Err && !current && !report ==> after.status == before.status
            &&& result is Ok ==> after.status == before.status
        }),
        result is Ok && before.file_explorer.mode == FileExplorerMode::Changes && (
        before.file_explorer.root matches Some(root) && components(root@) == components(
            repository_root@,
        )) ==> after.file_explorer.changes.in_flight,
{
    if let Ok(_) = result {
        let (noted, shown) = choose|noted: BlackholesApp, shown: BlackholesApp| #[trigger]
            BlackholesApp::refreshes_saved(
                before.with_save_noted(path, revision, true),
                noted,
                repository_root,
            ) && #[trigger] BlackholesApp::shows_saved_change(noted, shown, repository_root@, path)
                && BlackholesApp::requests(shown, after, seq![Effect::Redraw]);
        assert(shown.active_file == noted.active_file);
    }
}

/// The shared instructions of a project reach exactly its tasks that the application
/// keeps, in their order.
pub proof fn law_instructed_tasks(app: BlackholesApp, workspace_id: Id, count: int)
    requires
        0 <= count <= app.tasks@.len() <= usize::MAX,
    ensures
        forall|i: int|
            0 <= i < count ==> (instructed_tasks(app, workspace_id, count).contains(i as usize)
                <==> (#[trigger] app.tasks@[i]).workspace_id == workspace_id && components(
                app.task_workspaces@,
            ).is_prefix_of(components(app.tasks@[i].worktree_root_path@))),
        forall|k: int|
            0 <= k < instructed_tasks(app, workspace_id, count).len() ==> (
            #[trigger] instructed_tasks(app, workspace_id, count)[k]) < count,
        forall|j: int, k: int|
            0 <= j < k < instructed_tasks(app, workspace_id, count).len() ==> (
            #[trigger] instructed_tasks(app, workspace_id, count)[j]) < (
            #[trigger] instructed_tasks(app, workspace_id, count)[k]),
    decreases count,
{
    if count > 0 {
        law_instructed_tasks(app, workspace_id, count - 1);
        let fewer = instructed_tasks(app, workspace_id, count - 1);
        let more = instructed_tasks(app, workspace_id, count);
        assert forall|i: int| 0 <= i < count implies (more.contains(i as usize) <==> (
        #[trigger] app.tasks@[i]).workspace_id == workspace_id && components(
            app.task_workspaces@,
        ).is_prefix_of(components(app.tasks@[i].worktree_root_path@))) by {
            if more.contains(i as usize) && i < count - 1 {
                let k = choose|k: int| 0 <= k < more.len() && more[k] == i as usize;
                assert(k < fewer.len());
                assert(fewer[k] == i as usize);
            }
            if fewer.contains(i as usize) {
                let k = choose|k: int| 0 <= k < fewer.len() && fewer[k] == i as usize;
                assert(more[k] == i as usize);
            }
            if i == count - 1 {
                if more.len() > fewer.len() {
                    assert(more[fewer.len() as int] == i as usize);
                } else if more.contains(i as usize) {
                    let k = choose|k: int| 0 <= k < more.len() && more[k] == i as usize;
                    assert(fewer[k] < count - 1);
                }
            }
        }
    }
}

/// A document that was read and has no editor yet gets one that holds what was
/// read, once: afterwards it needs none, and nothing else is asked for.
pub proof fn law_editor_given(before: BlackholesApp, after: BlackholesApp, again: BlackholesApp)
    requires
        BlackholesApp::gives_editor(before, after),
        BlackholesApp::gives_editor(after, again),
    ensures
        again == after,
        before.active_file matches Some(file) ==> {
            &&& (file.load_state matches FileDocumentLoadState::Ready(content) && file.editor is None)
                ==> (after.active_file matches Some(open) && (open.editor matches Some(typed)
                && typed == file.load_state->Ready_0) && open.load_state is Open && open.path
                == file.path && open.request_id == file.request_id) && (BlackholesApp::asked(
                before,
                after,
            ).len() == 1 && (BlackholesApp::asked(before, after)[0] matches Effect::CreateEditor {
                path,
                language,
                content,
                tab_size: _,
            } && path == file.path && language == file.language && content
                == file.load_state->Ready_0))
            &&& !(file.load_state is Ready) || file.editor is Some ==> after == before
        },
        before.active_file is None ==> after == before,
{
}

} // verus!
