//! What the workbench shows: the explorer, the open document and the open
//! comparison.
use vstd::prelude::*;
use vstd::string::*;

use crate::app::{
    BlackholesApp, FileDiff, FileDiffLoadState, FileDocument, FileDocumentLoadState,
    FileExplorerMode, RepositoryChange, RepositoryChangesState, RepositoryDiffLineKind,
    RepositoryDiffRow,
};
use crate::effects::FileDocumentSource;
use crate::ids::Id;
use crate::labels::{
    app_theme_id, change_color, change_kind_code, change_label, change_letter, change_word,
    entry_icon, file_tree_icon, language_code, language_id, note_save_label, note_save_state_id,
    repository_change_kind_id, repository_change_style, save_state_code, save_word, theme_code,
    AppIcon, FileEntryKind,
};
use crate::model::{copy_text, text_of, Language};
use crate::paths::{
    components, components_of, file_name, name_of, relative, relative_to, same_path,
};
use crate::text::{decimal, decimal_text, join2, join3, same_text};
use crate::tree::{is_nested, shown_rows, tree_rows, FileTreeRow, FileTreeRowKind, TreeRow};

verus! {

// ---------------------------------------------------------------------------
// The explorer
// ---------------------------------------------------------------------------
/// The background of a selected and of any other row.
pub open spec fn row_background(selected: bool) -> u32 {
    if selected {
        0x29364f
    } else {
        0x111318
    }
}

/// How a row of the tree is drawn. An entry has an icon of its own.
#[derive(Clone, Copy, Debug, PartialEq, Eq)]
pub struct FileTreeRowStyle {
    pub selected: bool,
    pub background: u32,
    pub text_color: u32,
    pub icon: Option<(AppIcon, u32)>,
}

/// The path is the selected one of the explorer.
pub open spec fn is_selected(app: BlackholesApp, path: Seq<char>) -> bool {
    components_of(app.file_explorer.selected) == Some(components(path))
}

pub open spec fn tree_row_style(app: BlackholesApp, row: TreeRow) -> FileTreeRowStyle {
    let selected = is_selected(app, row.path);
    FileTreeRowStyle {
        selected,
        background: row_background(selected),
        text_color: match row.kind {
            FileTreeRowKind::Entry(_) => if row.hidden {
                0x7d8798
            } else if selected {
                0xe5e9f0
            } else {
                0xb6bdca
            },
            FileTreeRowKind::Loading => 0x788294,
            FileTreeRowKind::Error => 0xff7b72,
        },
        icon: match row.kind {
            FileTreeRowKind::Entry(kind) => Some(entry_icon(kind, row.path, row.expanded)),
            _ => None,
        },
    }
}

/// What the list of local changes shows.
#[derive(Debug)]
pub enum ChangesListView {
    Loading { label: &'static str },
    Failed { label: &'static str, detail: String },
    Empty { label: &'static str },
    Rows { rows: Vec<ChangeRowView> },
}

#[derive(Debug)]
pub struct ChangeRowView {
    pub selected: bool,
    pub background: u32,
    pub letter: &'static str,
    pub letter_color: u32,
    pub icon: AppIcon,
    pub icon_color: u32,
    pub path: String,
    pub path_color: u32,
    pub previous: Option<String>,
}

pub open spec fn change_row_shows(app: BlackholesApp, change: RepositoryChange, row: ChangeRowView) -> bool {
    let selected = is_selected(app, change.path@);
    &&& row.selected == selected
    &&& row.background == row_background(selected)
    &&& row.letter@ == change_letter(change.kind)
    &&& row.letter_color == change_color(change.kind)
    &&& (row.icon, row.icon_color) == entry_icon(FileEntryKind::File, change.path@, false)
    &&& row.path@ == change.relative_path@
    &&& row.path_color == if selected {
        0xe5e9f0u32
    } else {
        0xb6bdcau32
    }
    &&& text_of(row.previous) == match change.previous_relative_path {
        Some(previous) => Some("← "@ + previous@),
        None => None,
    }
}

pub open spec fn changes_list_shows(app: BlackholesApp, view: ChangesListView) -> bool {
    match app.file_explorer.changes.state {
        RepositoryChangesState::Idle | RepositoryChangesState::Loading => view matches ChangesListView::Loading {
            label,
        } && label@ == app.text("Loading changes…"@, "Cargando cambios…"@),
        RepositoryChangesState::Error(error) => view matches ChangesListView::Failed {
            label,
            detail,
        } && detail@ == error@ && label@ == app.text(
            "Git changes could not be loaded"@,
            "No se pudieron cargar los cambios Git"@,
        ),
        RepositoryChangesState::Ready(changes) => if changes@.len() == 0 {
            view matches ChangesListView::Empty { label } && label@ == app.text(
                "No local changes"@,
                "No hay cambios locales"@,
            )
        } else {
            view matches ChangesListView::Rows { rows } && rows@.len() == changes@.len()
                && forall|i: int|
                0 <= i < changes@.len() ==> change_row_shows(app, changes@[i], #[trigger] rows@[i])
        },
    }
}

/// The explorer. The rows of the tree are there in the files, the list of
/// changes in the changes.
#[derive(Debug)]
pub struct FileExplorerView {
    pub title: &'static str,
    pub files_label: &'static str,
    pub changes_label: String,
    pub mode: FileExplorerMode,
    pub root_label: String,
    pub root_path: String,
    pub rows: Vec<FileTreeRow>,
    pub changes: Option<ChangesListView>,
    pub hint: &'static str,
}

/// How many local changes are known.
pub open spec fn change_count(app: BlackholesApp) -> nat {
    match app.file_explorer.changes.state {
        RepositoryChangesState::Ready(changes) => changes@.len(),
        _ => 0,
    }
}

pub open spec fn root_text(app: BlackholesApp) -> Seq<char> {
    match app.file_explorer@.root {
        Some(root) => root,
        None => Seq::empty(),
    }
}

pub open spec fn explorer_shows(app: BlackholesApp, view: FileExplorerView) -> bool {
    let files = app.file_explorer.mode == FileExplorerMode::Files;
    &&& view.title@ == app.text("EXPLORER"@, "EXPLORADOR"@)
    &&& view.files_label@ == app.text("Files"@, "Archivos"@)
    &&& view.changes_label@ == if change_count(app) == 0 {
        app.text("Changes"@, "Cambios"@)
    } else {
        app.text("Changes"@, "Cambios"@) + " "@ + decimal(change_count(app))
    }
    &&& view.mode == app.file_explorer.mode
    &&& view.root_label@ == app.file_explorer.root_label@
    &&& view.root_path@ == root_text(app)
    &&& tree_rows(view.rows@) == if files {
        shown_rows(app)
    } else {
        seq![]
    }
    &&& match view.changes {
        Some(list) => !files && changes_list_shows(app, list),
        None => files,
    }
    &&& view.hint@ == if files {
        app.text("Click a file to edit it"@, "Haz clic en un archivo para editarlo"@)
    } else {
        app.text(
            "Click a changed file to compare it"@,
            "Haz clic en un archivo modificado para compararlo"@,
        )
    }
}

impl BlackholesApp {
    fn selects(&self, path: &str) -> (result: bool)
        ensures
            result == is_selected(*self, path@),
    {
        match &self.file_explorer.selected {
            Some(selected) => same_path(selected.as_str(), path),
            None => false,
        }
    }

    fn root_path_text(&self) -> (result: String)
        ensures
            result@ == root_text(*self),
    {
        match &self.file_explorer.root {
            Some(root) => root.clone(),
            None => String::new(),
        }
    }

    /// How a row of the tree is drawn.
    pub fn file_tree_row_style(&self, row: &FileTreeRow) -> (result: FileTreeRowStyle)
        ensures
            result == tree_row_style(*self, row@),
    {
        let selected: bool = self.selects(row.path.as_str());
        FileTreeRowStyle {
            selected,
            background: if selected {
                0x29364f
            } else {
                0x111318
            },
            text_color: match row.kind {
                FileTreeRowKind::Entry(_) => if row.hidden {
                    0x7d8798
                } else if selected {
                    0xe5e9f0
                } else {
                    0xb6bdca
                },
                FileTreeRowKind::Loading => 0x788294,
                FileTreeRowKind::Error => 0xff7b72,
            },
            icon: match row.kind {
                FileTreeRowKind::Entry(kind) => Some(
                    file_tree_icon(kind, row.path.as_str(), row.expanded),
                ),
                _ => None,
            },
        }
    }

    fn change_row(&self, change: &RepositoryChange) -> (result: ChangeRowView)
        ensures
            change_row_shows(*self, *change, result),
    {
        let selected: bool = self.selects(change.path.as_str());
        let (letter, letter_color) = repository_change_style(change.kind);
        let (icon, icon_color) = file_tree_icon(FileEntryKind::File, change.path.as_str(), false);
        ChangeRowView {
            selected,
            background: if selected {
                0x29364f
            } else {
                0x111318
            },
            letter,
            letter_color,
            icon,
            icon_color,
            path: change.relative_path.clone(),
            path_color: if selected {
                0xe5e9f0
            } else {
                0xb6bdca
            },
            previous: match &change.previous_relative_path {
                Some(previous) => Some(join2("← ", previous.as_str())),
                None => None,
            },
        }
    }

    /// The list of local changes.
    pub fn render_repository_changes_list(&self) -> (result: ChangesListView)
        ensures
            changes_list_shows(*self, result),
    {
        match &self.file_explorer.changes.state {
            RepositoryChangesState::Idle | RepositoryChangesState::Loading => ChangesListView::Loading {
                label: self.tr("Loading changes…", "Cargando cambios…"),
            },
            RepositoryChangesState::Error(error) => ChangesListView::Failed {
                label: self.tr(
                    "Git changes could not be loaded",
                    "No se pudieron cargar los cambios Git",
                ),
                detail: error.clone(),
            },
            RepositoryChangesState::Ready(changes) => {
                if changes.len() == 0 {
                    return ChangesListView::Empty {
                        label: self.tr("No local changes", "No hay cambios locales"),
                    };
                }
                let mut rows: Vec<ChangeRowView> = Vec::new();
                let mut index: usize = 0;
                while index < changes.len()
                    invariant
                        index <= changes@.len(),
                        rows@.len() == index,
                        forall|i: int|
                            0 <= i < index ==> change_row_shows(
                                *self,
                                changes@[i],
                                #[trigger] rows@[i],
                            ),
                    decreases changes@.len() - index,
                {
                    rows.push(self.change_row(&changes[index]));
                    index += 1;
                }
                ChangesListView::Rows { rows }
            },
        }
    }

    /// The explorer.
    pub fn render_file_explorer(&self) -> (result: FileExplorerView)
        requires
            is_nested(self.file_explorer@),
        ensures
            explorer_shows(*self, result),
    {
        let mode = self.file_explorer.mode;
        let files: bool = mode == FileExplorerMode::Files;
        let rows = if files {
            self.file_tree_rows()
        } else {
            Vec::new()
        };
        assert(!files ==> tree_rows(rows@) =~= Seq::<TreeRow>::empty());
        let count: usize = match &self.file_explorer.changes.state {
            RepositoryChangesState::Ready(changes) => changes.len(),
            _ => 0,
        };
        let changes_label = if count == 0 {
            self.tr("Changes", "Cambios").to_string()
        } else {
            join3(self.tr("Changes", "Cambios"), " ", decimal_text(count as u64).as_str())
        };
        FileExplorerView {
            title: self.tr("EXPLORER", "EXPLORADOR"),
            files_label: self.tr("Files", "Archivos"),
            changes_label,
            mode,
            root_label: self.file_explorer.root_label.clone(),
            root_path: self.root_path_text(),
            rows,
            changes: if files {
                None
            } else {
                Some(self.render_repository_changes_list())
            },
            hint: if files {
                self.tr("Click a file to edit it", "Haz clic en un archivo para editarlo")
            } else {
                self.tr(
                    "Click a changed file to compare it",
                    "Haz clic en un archivo modificado para compararlo",
                )
            },
        }
    }
}

// ---------------------------------------------------------------------------
// The document
// ---------------------------------------------------------------------------
/// The name that a path is shown under.
pub open spec fn shown_file_name(path: Seq<char>) -> Seq<char> {
    match name_of(path) {
        Some(name) => name,
        None => "file"@,
    }
}

fn display_file_name(path: &str) -> (result: String)
    ensures
        result@ == shown_file_name(path@),
{
    match file_name(path) {
        Some(name) => name,
        None => "file".to_string(),
    }
}

/// The name that a document is shown under.
pub open spec fn document_name(app: BlackholesApp, document: FileDocument) -> Seq<char> {
    match document.source {
        FileDocumentSource::ProjectTaskInstructions(_) => app.agent_labels.instructions_file@
            + app.text(" for tasks"@, " de tareas"@),
        _ => shown_file_name(document.path@),
    }
}

/// Where a document says that it stands.
pub open spec fn document_place(app: BlackholesApp, document: FileDocument) -> Seq<char> {
    match document.source {
        FileDocumentSource::ProjectInstructions(_) => app.text(
            "General project instructions · AGENTS.md links to this file"@,
            "Instrucciones generales del proyecto · AGENTS.md enlaza este archivo"@,
        ),
        FileDocumentSource::ProjectTaskInstructions(_) => app.text(
            "Shared body copied after each task's generated header"@,
            "Cuerpo compartido copiado después del encabezado generado de cada tarea"@,
        ),
        FileDocumentSource::Repository => relative_to(document.path@, document.root@),
    }
}

/// The two instruction files of a project, side by side.
#[derive(Debug)]
pub struct InstructionTabs {
    pub workspace_id: Id,
    pub project_label: String,
    pub task_label: String,
    pub project_selected: bool,
}

pub open spec fn tabs_show(app: BlackholesApp, source: FileDocumentSource, tabs: Option<InstructionTabs>) -> bool {
    match source {
        FileDocumentSource::Repository => tabs is None,
        FileDocumentSource::ProjectInstructions(workspace_id) => tabs matches Some(tabs)
            && tabs_are(app, tabs, workspace_id, true),
        FileDocumentSource::ProjectTaskInstructions(workspace_id) => tabs matches Some(tabs)
            && tabs_are(app, tabs, workspace_id, false),
    }
}

pub open spec fn tabs_are(
    app: BlackholesApp,
    tabs: InstructionTabs,
    workspace_id: Id,
    project_selected: bool,
) -> bool {
    &&& tabs.workspace_id == workspace_id
    &&& tabs.project_label@ == app.text(
        "Project "@ + app.agent_labels.instructions_file@,
        app.agent_labels.instructions_file@ + " del proyecto"@,
    )
    &&& tabs.task_label@ == app.text(
        "Task "@ + app.agent_labels.instructions_file@,
        app.agent_labels.instructions_file@ + " de tareas"@,
    )
    &&& tabs.project_selected == project_selected
}

/// What stands in the place of the text.
#[derive(Debug)]
pub enum EditorContent {
    Opening { label: &'static str },
    Failed { label: &'static str, detail: String },
    Editor,
    Preparing { label: &'static str },
}

pub open spec fn editor_content_shows(
    app: BlackholesApp,
    document: FileDocument,
    content: EditorContent,
) -> bool {
    match document.load_state {
        FileDocumentLoadState::Loading => content matches EditorContent::Opening { label } && label@
            == app.text("Opening file…"@, "Abriendo archivo…"@),
        FileDocumentLoadState::Error(error) => content matches EditorContent::Failed { label, detail }
            && detail@ == error@ && label@ == app.text(
            "This file cannot be edited here"@,
            "Este archivo no se puede editar aquí"@,
        ),
        _ => if document.editor is Some {
            content is Editor
        } else {
            content matches EditorContent::Preparing { label } && label@ == app.text(
                "Preparing editor…"@,
                "Preparando editor…"@,
            )
        },
    }
}

#[derive(Debug)]
pub struct FileEditorView {
    pub request_id: u64,
    pub file_name: String,
    pub place: String,
    pub save_label: &'static str,
    pub save_status: &'static str,
    pub tabs: Option<InstructionTabs>,
    pub content: EditorContent,
}

impl BlackholesApp {
    fn shown_document_name(&self, document: &FileDocument) -> (result: String)
        ensures
            result@ == document_name(*self, *document),
    {
        match document.source {
            FileDocumentSource::ProjectTaskInstructions(_) => join2(
                self.agent_labels.instructions_file.as_str(),
                self.tr(" for tasks", " de tareas"),
            ),
            _ => display_file_name(document.path.as_str()),
        }
    }

    fn shown_document_place(&self, document: &FileDocument) -> (result: String)
        ensures
            result@ == document_place(*self, *document),
    {
        match document.source {
            FileDocumentSource::ProjectInstructions(_) => self.tr(
                "General project instructions · AGENTS.md links to this file",
                "Instrucciones generales del proyecto · AGENTS.md enlaza este archivo",
            ).to_string(),
            FileDocumentSource::ProjectTaskInstructions(_) => self.tr(
                "Shared body copied after each task's generated header",
                "Cuerpo compartido copiado después del encabezado generado de cada tarea",
            ).to_string(),
            FileDocumentSource::Repository => relative(
                document.path.as_str(),
                document.root.as_str(),
            ),
        }
    }

    fn instruction_tabs(&self, workspace_id: Id, project_selected: bool) -> (result: InstructionTabs)
        ensures
            tabs_are(*self, result, workspace_id, project_selected),
    {
        let file = self.agent_labels.instructions_file.as_str();
        let (project_label, task_label): (String, String) = match self.session.language {
            Language::English => (join2("Project ", file), join2("Task ", file)),
            Language::Spanish => (join2(file, " del proyecto"), join2(file, " de tareas")),
        };
        InstructionTabs {
            workspace_id,
            project_label,
            task_label,
            project_selected,
        }
    }

    /// The editor of the open document, nothing where none is open.
    pub fn render_file_editor(&self) -> (result: Option<FileEditorView>)
        ensures
            match (self.active_file, result) {
                (Some(document), Some(view)) => {
                    &&& view.request_id == document.request_id
                    &&& view.file_name@ == document_name(*self, document)
                    &&& view.place@ == document_place(*self, document)
                    &&& view.save_label@ == self.text("Save"@, "Guardar"@)
                    &&& view.save_status@ == save_word(document.save_state, self.session.language)
                    &&& tabs_show(*self, document.source, view.tabs)
                    &&& editor_content_shows(*self, document, view.content)
                },
                (None, None) => true,
                _ => false,
            },
    {
        let document = match &self.active_file {
            Some(document) => document,
            None => {
                return None;
            },
        };
        let content = match &document.load_state {
            FileDocumentLoadState::Loading => EditorContent::Opening {
                label: self.tr("Opening file…", "Abriendo archivo…"),
            },
            FileDocumentLoadState::Error(error) => EditorContent::Failed {
                label: self.tr(
                    "This file cannot be edited here",
                    "Este archivo no se puede editar aquí",
                ),
                detail: error.clone(),
            },
            _ => if document.editor.is_some() {
                EditorContent::Editor
            } else {
                EditorContent::Preparing {
                    label: self.tr("Preparing editor…", "Preparando editor…"),
                }
            },
        };
        Some(
            FileEditorView {
                request_id: document.request_id,
                file_name: self.shown_document_name(document),
                place: self.shown_document_place(document),
                save_label: self.tr("Save", "Guardar"),
                save_status: note_save_label(document.save_state, self.session.language),
                tabs: match document.source {
                    FileDocumentSource::Repository => None,
                    FileDocumentSource::ProjectInstructions(workspace_id) => Some(
                        self.instruction_tabs(workspace_id, true),
                    ),
                    FileDocumentSource::ProjectTaskInstructions(workspace_id) => Some(
                        self.instruction_tabs(workspace_id, false),
                    ),
                },
                content,
            },
        )
    }
}

// ---------------------------------------------------------------------------
// The comparison
// ---------------------------------------------------------------------------
/// What stands in the place of the compared lines.
#[derive(Debug)]
pub enum DiffContent {
    Loading { label: &'static str },
    Failed { label: &'static str, detail: String },
    Binary { label: &'static str },
    Unchanged { label: &'static str },
    Rows { rows: Vec<DiffRowView>, truncated: Option<&'static str> },
}

pub open spec fn diff_content_shows(app: BlackholesApp, state: FileDiffLoadState, content: DiffContent) -> bool {
    match state {
        FileDiffLoadState::Loading => content matches DiffContent::Loading { label } && label@
            == app.text("Loading comparison…"@, "Cargando comparación…"@),
        FileDiffLoadState::Error(error) => content matches DiffContent::Failed { label, detail }
            && detail@ == error@ && label@ == app.text(
            "This comparison cannot be displayed"@,
            "Esta comparación no se puede mostrar"@,
        ),
        FileDiffLoadState::Ready(diff) => if diff.binary {
            content matches DiffContent::Binary { label } && label@ == app.text(
                "Binary files cannot be compared here"@,
                "Los archivos binarios no se pueden comparar aquí"@,
            )
        } else if diff.rows@.len() == 0 {
            content matches DiffContent::Unchanged { label } && label@ == app.text(
                "No textual changes to display"@,
                "No hay cambios de texto para mostrar"@,
            )
        } else {
            content matches DiffContent::Rows { rows, truncated } && rows_show(diff.rows@, rows@)
                && match truncated {
                Some(label) => diff.truncated && label@ == app.text(
                    "Large diff truncated at 20,000 rows"@,
                    "Diff grande truncado a 20 000 filas"@,
                ),
                None => !diff.truncated,
            }
        },
    }
}

#[derive(Debug)]
pub struct RepositoryDiffView {
    pub request_id: u64,
    pub file_name: String,
    pub relative_path: String,
    pub letter: &'static str,
    pub letter_color: u32,
    pub label: &'static str,
    pub committed_label: &'static str,
    pub local_label: &'static str,
    pub content: DiffContent,
}

/// How one side of a compared line is drawn.
#[derive(Debug)]
pub struct DiffSideStyle {
    pub prefix: &'static str,
    pub prefix_color: u32,
    pub background: u32,
    pub number_background: u32,
}

/// The line is no longer there, or no longer the same.
pub open spec fn loses_line(kind: RepositoryDiffLineKind) -> bool {
    kind == RepositoryDiffLineKind::Changed || kind == RepositoryDiffLineKind::Deleted
}

/// The line is new, or not the same as before.
pub open spec fn gains_line(kind: RepositoryDiffLineKind) -> bool {
    kind == RepositoryDiffLineKind::Changed || kind == RepositoryDiffLineKind::Added
}

/// How the committed side of a line is drawn.
pub open spec fn is_committed_style(kind: RepositoryDiffLineKind, style: DiffSideStyle) -> bool {
    &&& style.prefix@ == if loses_line(kind) {
        "−"@
    } else {
        " "@
    }
    &&& (style.prefix_color, style.background, style.number_background) == if loses_line(kind) {
        (0xee9a9au32, 0x3a2b30u32, 0x59343au32)
    } else {
        (0x788294u32, 0x20262eu32, 0x252c35u32)
    }
}

/// How the local side of a line is drawn.
pub open spec fn is_local_style(kind: RepositoryDiffLineKind, style: DiffSideStyle) -> bool {
    &&& style.prefix@ == if gains_line(kind) {
        "+"@
    } else {
        " "@
    }
    &&& (style.prefix_color, style.background, style.number_background) == if gains_line(kind) {
        (0x8bd5a8u32, 0x273a31u32, 0x345542u32)
    } else {
        (0x788294u32, 0x20262eu32, 0x252c35u32)
    }
}

/// How the committed and the local side of a line are drawn.
pub fn repository_diff_line_sides(kind: RepositoryDiffLineKind) -> (result: (
    DiffSideStyle,
    DiffSideStyle,
))
    ensures
        is_committed_style(kind, result.0),
        is_local_style(kind, result.1),
{
    let lost: bool = match kind {
        RepositoryDiffLineKind::Changed | RepositoryDiffLineKind::Deleted => true,
        _ => false,
    };
    let gained: bool = match kind {
        RepositoryDiffLineKind::Changed | RepositoryDiffLineKind::Added => true,
        _ => false,
    };
    let committed = if lost {
        DiffSideStyle {
            prefix: "−",
            prefix_color: 0xee9a9a,
            background: 0x3a2b30,
            number_background: 0x59343a,
        }
    } else {
        DiffSideStyle {
            prefix: " ",
            prefix_color: 0x788294,
            background: 0x20262e,
            number_background: 0x252c35,
        }
    };
    let local = if gained {
        DiffSideStyle {
            prefix: "+",
            prefix_color: 0x8bd5a8,
            background: 0x273a31,
            number_background: 0x345542,
        }
    } else {
        DiffSideStyle {
            prefix: " ",
            prefix_color: 0x788294,
            background: 0x20262e,
            number_background: 0x252c35,
        }
    };
    (committed, local)
}

/// One side of the head of a hunk.
#[derive(Debug)]
pub struct HunkSideView {
    pub number: String,
    pub header: String,
    pub background: u32,
    pub number_background: u32,
    pub divider: Option<u32>,
}

pub open spec fn hunk_side_shows(
    view: HunkSideView,
    line_number: usize,
    header: Seq<char>,
    with_divider: bool,
) -> bool {
    &&& view.number@ == decimal(line_number as nat)
    &&& view.header@ == header
    &&& view.background == 0x293a59
    &&& view.number_background == 0x304568
    &&& view.divider == if with_divider {
        Some(0x3c4f72u32)
    } else {
        None
    }
}

/// One side of the head of a hunk; a divider follows the committed side.
pub fn repository_diff_hunk_side(line_number: usize, header: &String, with_divider: bool) -> (result:
    HunkSideView)
    ensures
        hunk_side_shows(result, line_number, header@, with_divider),
{
    HunkSideView {
        number: decimal_text(line_number as u64),
        header: header.clone(),
        background: 0x293a59,
        number_background: 0x304568,
        divider: if with_divider {
            Some(0x3c4f72)
        } else {
            None
        },
    }
}

/// One side of a compared line. The number is empty where the line is not on the
/// side.
#[derive(Debug)]
pub struct LineSideView {
    pub number: String,
    pub text: String,
    pub style: DiffSideStyle,
    pub divider: Option<u32>,
}

/// The number of a line, empty where there is none.
pub open spec fn line_number_text(line_number: Option<usize>) -> Seq<char> {
    match line_number {
        Some(number) => decimal(number as nat),
        None => seq![],
    }
}

pub open spec fn line_side_shows(
    view: LineSideView,
    line_number: Option<usize>,
    text: Seq<char>,
    with_divider: bool,
) -> bool {
    &&& view.number@ == line_number_text(line_number)
    &&& view.text@ == text
    &&& view.divider == if with_divider {
        Some(0x38404bu32)
    } else {
        None
    }
}

/// One side of a compared line; a divider follows the committed side.
pub fn repository_diff_line_side(
    line_number: Option<usize>,
    text: &String,
    style: DiffSideStyle,
    with_divider: bool,
) -> (result: LineSideView)
    ensures
        line_side_shows(result, line_number, text@, with_divider),
        result.style == style,
{
    LineSideView {
        number: match line_number {
            Some(number) => decimal_text(number as u64),
            None => String::new(),
        },
        text: text.clone(),
        style,
        divider: if with_divider {
            Some(0x38404b)
        } else {
            None
        },
    }
}

/// A row of the comparison: the committed side, and beside it the local one.
#[derive(Debug)]
pub enum DiffRowView {
    Hunk { committed_head: HunkSideView, local_head: HunkSideView },
    Line { committed: LineSideView, local: LineSideView },
}

pub open spec fn row_shows(row: RepositoryDiffRow, view: DiffRowView) -> bool {
    match row {
        RepositoryDiffRow::Hunk { old_start, new_start, header } => {
            &&& view matches DiffRowView::Hunk { committed_head, local_head }
            &&& hunk_side_shows(committed_head, old_start, header@, true)
            &&& hunk_side_shows(local_head, new_start, header@, false)
        },
        RepositoryDiffRow::Line { old_number, new_number, old_text, new_text, kind } => {
            &&& view matches DiffRowView::Line { committed, local }
            &&& line_side_shows(committed, old_number, old_text@, true)
            &&& is_committed_style(kind, committed.style)
            &&& line_side_shows(local, new_number, new_text@, false)
            &&& is_local_style(kind, local.style)
        },
    }
}

/// The views show the rows, in their order.
pub open spec fn rows_show(rows: Seq<RepositoryDiffRow>, views: Seq<DiffRowView>) -> bool {
    &&& views.len() == rows.len()
    &&& forall|i: int| 0 <= i < rows.len() ==> row_shows(rows[i], #[trigger] views[i])
}

/// A row of the comparison as it is drawn.
pub fn render_repository_diff_row(row: &RepositoryDiffRow) -> (result: DiffRowView)
    ensures
        row_shows(*row, result),
{
    match row {
        RepositoryDiffRow::Hunk { old_start, new_start, header } => DiffRowView::Hunk {
            committed_head: repository_diff_hunk_side(*old_start, header, true),
            local_head: repository_diff_hunk_side(*new_start, header, false),
        },
        RepositoryDiffRow::Line { old_number, new_number, old_text, new_text, kind } => {
            let (committed, local) = repository_diff_line_sides(*kind);
            DiffRowView::Line {
                committed: repository_diff_line_side(*old_number, old_text, committed, true),
                local: repository_diff_line_side(*new_number, new_text, local, false),
            }
        },
    }
}

fn render_rows(rows: &Vec<RepositoryDiffRow>) -> (result: Vec<DiffRowView>)
    ensures
        rows_show(rows@, result@),
{
    let mut result: Vec<DiffRowView> = Vec::new();
    let mut index: usize = 0;
    while index < rows.len()
        invariant
            index <= rows@.len(),
            result@.len() == index,
            forall|i: int| 0 <= i < index ==> row_shows(rows@[i], #[trigger] result@[i]),
        decreases rows@.len() - index,
    {
        result.push(render_repository_diff_row(&rows[index]));
        index += 1;
    }
    result
}

impl BlackholesApp {
    /// The open comparison, nothing where none is open.
    pub fn render_repository_diff(&self) -> (result: Option<RepositoryDiffView>)
        ensures
            match (self.active_diff, result) {
                (Some(diff), Some(view)) => {
                    &&& view.request_id == diff.request_id
                    &&& view.file_name@ == shown_file_name(diff.change.path@)
                    &&& view.relative_path@ == diff.change.relative_path@
                    &&& view.letter@ == change_letter(diff.change.kind)
                    &&& view.letter_color == change_color(diff.change.kind)
                    &&& view.label@ == change_word(diff.change.kind, self.session.language)
                    &&& view.committed_label@ == "HEAD"@
                    &&& view.local_label@ == self.text("WORKING TREE"@, "CAMBIOS LOCALES"@)
                    &&& diff_content_shows(*self, diff.load_state, view.content)
                },
                (None, None) => true,
                _ => false,
            },
    {
        let document = match &self.active_diff {
            Some(document) => document,
            None => {
                return None;
            },
        };
        let (letter, letter_color) = repository_change_style(document.change.kind);
        let content = match &document.load_state {
            FileDiffLoadState::Loading => DiffContent::Loading {
                label: self.tr("Loading comparison…", "Cargando comparación…"),
            },
            FileDiffLoadState::Error(error) => DiffContent::Failed {
                label: self.tr(
                    "This comparison cannot be displayed",
                    "Esta comparación no se puede mostrar",
                ),
                detail: error.clone(),
            },
            FileDiffLoadState::Ready(diff) => if diff.binary {
                DiffContent::Binary {
                    label: self.tr(
                        "Binary files cannot be compared here",
                        "Los archivos binarios no se pueden comparar aquí",
                    ),
                }
            } else if diff.rows.len() == 0 {
                DiffContent::Unchanged {
                    label: self.tr(
                        "No textual changes to display",
                        "No hay cambios de texto para mostrar",
                    ),
                }
            } else {
                DiffContent::Rows {
                    rows: render_rows(&diff.rows),
                    truncated: if diff.truncated {
                        Some(
                            self.tr(
                                "Large diff truncated at 20,000 rows",
                                "Diff grande truncado a 20 000 filas",
                            ),
                        )
                    } else {
                        None
                    },
                }
            },
        };
        Some(
            RepositoryDiffView {
                request_id: document.request_id,
                file_name: display_file_name(document.change.path.as_str()),
                relative_path: document.change.relative_path.clone(),
                letter,
                letter_color,
                label: change_label(document.change.kind, self.session.language),
                committed_label: "HEAD",
                local_label: self.tr("WORKING TREE", "CAMBIOS LOCALES"),
                content,
            },
        )
    }
}

// ---------------------------------------------------------------------------
// The workbench as it is published
// ---------------------------------------------------------------------------
#[derive(Debug)]
pub struct PublishedTreeRow {
    pub row: FileTreeRow,
    pub selected: bool,
    pub kind: &'static str,
}

pub open spec fn row_kind_code(kind: FileTreeRowKind) -> Seq<char> {
    match kind {
        FileTreeRowKind::Entry(FileEntryKind::Directory) => "directory"@,
        FileTreeRowKind::Entry(FileEntryKind::File) => "file"@,
        FileTreeRowKind::Entry(FileEntryKind::Symlink) => "symlink"@,
        FileTreeRowKind::Loading => "loading"@,
        FileTreeRowKind::Error => "error"@,
    }
}

fn row_kind_id(kind: FileTreeRowKind) -> (result: &'static str)
    ensures
        result@ == row_kind_code(kind),
{
    match kind {
        FileTreeRowKind::Entry(FileEntryKind::Directory) => "directory",
        FileTreeRowKind::Entry(FileEntryKind::File) => "file",
        FileTreeRowKind::Entry(FileEntryKind::Symlink) => "symlink",
        FileTreeRowKind::Loading => "loading",
        FileTreeRowKind::Error => "error",
    }
}

pub open spec fn published_rows_show(app: BlackholesApp, rows: Seq<PublishedTreeRow>) -> bool {
    let shown = if app.file_explorer.open && app.file_explorer.mode == FileExplorerMode::Files {
        shown_rows(app)
    } else {
        seq![]
    };
    &&& rows.len() == shown.len()
    &&& forall|i: int|
        #![trigger rows[i]]
        0 <= i < rows.len() ==> {
            &&& rows[i].row@ == shown[i]
            &&& rows[i].selected == is_selected(app, shown[i].path)
            &&& rows[i].kind@ == row_kind_code(shown[i].kind)
        }
}

#[derive(Debug)]
pub struct PublishedChange {
    pub relative_path: String,
    pub previous_relative_path: Option<String>,
    pub kind: &'static str,
    pub selected: bool,
}

/// The comparison is of the change.
pub open spec fn is_compared(app: BlackholesApp, change: RepositoryChange) -> bool {
    app.active_diff matches Some(diff) && diff.change.relative_path@ == change.relative_path@
}

/// The local changes with the state of their read.
#[derive(Debug)]
pub struct PublishedChanges {
    pub state: &'static str,
    pub error: Option<String>,
    pub changes: Vec<PublishedChange>,
}

pub open spec fn published_changes_show(app: BlackholesApp, view: PublishedChanges) -> bool {
    match app.file_explorer.changes.state {
        RepositoryChangesState::Idle => view.state@ == "idle"@ && view.error is None
            && view.changes@.len() == 0,
        RepositoryChangesState::Loading => view.state@ == "loading"@ && view.error is None
            && view.changes@.len() == 0,
        RepositoryChangesState::Error(error) => view.state@ == "error"@ && text_of(view.error)
            == Some(error@) && view.changes@.len() == 0,
        RepositoryChangesState::Ready(changes) => {
            &&& view.state@ == "ready"@
            &&& view.error is None
            &&& view.changes@.len() == changes@.len()
            &&& forall|i: int|
                #![trigger view.changes@[i]]
                0 <= i < changes@.len() ==> {
                    &&& view.changes@[i].relative_path@ == changes@[i].relative_path@
                    &&& text_of(view.changes@[i].previous_relative_path) == text_of(
                        changes@[i].previous_relative_path,
                    )
                    &&& view.changes@[i].kind@ == change_kind_code(changes@[i].kind)
                    &&& view.changes@[i].selected == is_compared(app, changes@[i])
                }
        },
    }
}

#[derive(Debug)]
pub struct PublishedEditor {
    pub request_id: u64,
    pub state: &'static str,
    pub error: Option<String>,
    pub file_name: String,
    pub relative_path: String,
    pub content: String,
    pub language: String,
    pub source: &'static str,
    pub workspace_id: Option<Id>,
    pub save_state: &'static str,
    pub revision: u64,
}

/// The text of the document: what is in its editor, or what was read for it.
pub open spec fn document_text(document: FileDocument) -> Seq<char> {
    match (document.editor, document.load_state) {
        (Some(content), _) => content@,
        (None, FileDocumentLoadState::Ready(content)) => content@,
        _ => Seq::empty(),
    }
}

pub open spec fn source_code(source: FileDocumentSource) -> (Seq<char>, Option<Id>) {
    match source {
        FileDocumentSource::Repository => ("repository"@, None),
        FileDocumentSource::ProjectInstructions(id) => ("project-instructions"@, Some(id)),
        FileDocumentSource::ProjectTaskInstructions(id) => ("task-instructions"@, Some(id)),
    }
}

pub open spec fn published_editor_shows(
    app: BlackholesApp,
    document: FileDocument,
    view: PublishedEditor,
) -> bool {
    &&& view.request_id == document.request_id
    &&& match document.load_state {
        FileDocumentLoadState::Loading | FileDocumentLoadState::Ready(_) => view.state@ == "loading"@
            && view.error is None,
        FileDocumentLoadState::Open => view.state@ == "ready"@ && view.error is None,
        FileDocumentLoadState::Error(error) => view.state@ == "error"@ && text_of(view.error)
            == Some(error@),
    }
    &&& view.file_name@ == document_name(app, document)
    &&& view.relative_path@ == document_place(app, document)
    &&& view.content@ == document_text(document)
    &&& view.language@ == document.language@
    &&& (view.source@, view.workspace_id) == source_code(document.source)
    &&& view.save_state@ == save_state_code(document.save_state)
    &&& view.revision == document.revision
}

/// A compared line or the head of a hunk as it is published.
#[derive(Debug)]
pub enum PublishedDiffRow {
    Hunk { row_type: &'static str, old_start: usize, new_start: usize, header: String },
    Line {
        row_type: &'static str,
        kind: &'static str,
        old_number: Option<usize>,
        new_number: Option<usize>,
        old_text: String,
        new_text: String,
    },
}

pub open spec fn line_kind_code(kind: RepositoryDiffLineKind) -> Seq<char> {
    match kind {
        RepositoryDiffLineKind::Context => "context"@,
        RepositoryDiffLineKind::Changed => "changed"@,
        RepositoryDiffLineKind::Added => "added"@,
        RepositoryDiffLineKind::Deleted => "deleted"@,
    }
}

pub open spec fn published_row_shows(row: RepositoryDiffRow, view: PublishedDiffRow) -> bool {
    match row {
        RepositoryDiffRow::Hunk { old_start, new_start, header } => {
            &&& view matches PublishedDiffRow::Hunk {
                row_type,
                old_start: shown_old,
                new_start: shown_new,
                header: shown_header,
            }
            &&& row_type@ == "hunk"@
            &&& shown_old == old_start
            &&& shown_new == new_start
            &&& shown_header@ == header@
        },
        RepositoryDiffRow::Line { old_number, new_number, old_text, new_text, kind } => {
            &&& view matches PublishedDiffRow::Line {
                row_type,
                kind: shown_kind,
                old_number: shown_old,
                new_number: shown_new,
                old_text: shown_old_text,
                new_text: shown_new_text,
            }
            &&& row_type@ == "line"@
            &&& shown_kind@ == line_kind_code(kind)
            &&& shown_old == old_number
            &&& shown_new == new_number
            &&& shown_old_text@ == old_text@
            &&& shown_new_text@ == new_text@
        },
    }
}

/// The published rows are the rows, in their order.
pub open spec fn published_diff_rows_show(
    rows: Seq<RepositoryDiffRow>,
    views: Seq<PublishedDiffRow>,
) -> bool {
    &&& views.len() == rows.len()
    &&& forall|i: int| 0 <= i < rows.len() ==> published_row_shows(rows[i], #[trigger] views[i])
}

/// A row as it is published.
pub fn repository_diff_row_json(row: &RepositoryDiffRow) -> (result: PublishedDiffRow)
    ensures
        published_row_shows(*row, result),
{
    match row {
        RepositoryDiffRow::Hunk { old_start, new_start, header } => PublishedDiffRow::Hunk {
            row_type: "hunk",
            old_start: *old_start,
            new_start: *new_start,
            header: header.clone(),
        },
        RepositoryDiffRow::Line { old_number, new_number, old_text, new_text, kind } => {
            PublishedDiffRow::Line {
                row_type: "line",
                kind: match kind {
                    RepositoryDiffLineKind::Context => "context",
                    RepositoryDiffLineKind::Changed => "changed",
                    RepositoryDiffLineKind::Added => "added",
                    RepositoryDiffLineKind::Deleted => "deleted",
                },
                old_number: *old_number,
                new_number: *new_number,
                old_text: old_text.clone(),
                new_text: new_text.clone(),
            }
        },
    }
}

fn publish_rows(rows: &Vec<RepositoryDiffRow>) -> (result: Vec<PublishedDiffRow>)
    ensures
        published_diff_rows_show(rows@, result@),
{
    let mut result: Vec<PublishedDiffRow> = Vec::new();
    let mut index: usize = 0;
    while index < rows.len()
        invariant
            index <= rows@.len(),
            result@.len() == index,
            forall|i: int| 0 <= i < index ==> published_row_shows(rows@[i], #[trigger] result@[i]),
        decreases rows@.len() - index,
    {
        result.push(repository_diff_row_json(&rows[index]));
        index += 1;
    }
    result
}

/// The comparison as it is published. Its rows go with it only where not both
/// whole texts do.
#[derive(Debug)]
pub struct PublishedDiff {
    pub request_id: u64,
    pub state: &'static str,
    pub error: Option<String>,
    pub file_name: String,
    pub relative_path: String,
    pub change_kind: &'static str,
    pub original: Option<String>,
    pub modified: Option<String>,
    pub rows: Vec<PublishedDiffRow>,
    pub truncated: bool,
}

pub open spec fn published_diff_shows(diff: FileDiff, view: PublishedDiff) -> bool {
    &&& view.request_id == diff.request_id
    &&& view.file_name@ == shown_file_name(diff.change.path@)
    &&& view.relative_path@ == diff.change.relative_path@
    &&& view.change_kind@ == change_kind_code(diff.change.kind)
    &&& match diff.load_state {
        FileDiffLoadState::Loading => {
            &&& view.state@ == "loading"@
            &&& view.error is None
            &&& view.original is None
            &&& view.modified is None
            &&& view.rows@.len() == 0
            &&& !view.truncated
        },
        FileDiffLoadState::Error(error) => {
            &&& view.state@ == "error"@
            &&& text_of(view.error) == Some(error@)
            &&& view.original is None
            &&& view.modified is None
            &&& view.rows@.len() == 0
            &&& !view.truncated
        },
        FileDiffLoadState::Ready(read) => {
            let whole = read.original is Some && read.modified is Some;
            &&& view.error is None
            &&& text_of(view.original) == text_of(read.original)
            &&& text_of(view.modified) == text_of(read.modified)
            &&& view.state@ == if read.binary {
                "binary"@
            } else if !whole && read.rows@.len() == 0 {
                "empty"@
            } else {
                "ready"@
            }
            &&& if read.binary || whole {
                view.rows@.len() == 0
            } else {
                published_diff_rows_show(read.rows@, view.rows@)
            }
            &&& view.truncated == (read.truncated && (read.binary || !whole))
        },
    }
}

#[derive(Debug)]
pub struct WorkbenchSnapshot {
    pub language: &'static str,
    pub theme: &'static str,
    pub explorer_open: bool,
    pub root_label: String,
    pub root_path: String,
    pub mode: &'static str,
    pub rows: Vec<PublishedTreeRow>,
    pub changes: PublishedChanges,
    pub editor: Option<PublishedEditor>,
    pub diff: Option<PublishedDiff>,
}

pub open spec fn workbench_shows(app: BlackholesApp, view: WorkbenchSnapshot) -> bool {
    &&& view.language@ == language_code(app.session.language)
    &&& view.theme@ == theme_code(app.session.theme)
    &&& view.explorer_open == app.file_explorer.open
    &&& view.root_label@ == app.file_explorer.root_label@
    &&& view.root_path@ == root_text(app)
    &&& view.mode@ == if app.file_explorer.mode == FileExplorerMode::Changes {
        "changes"@
    } else {
        "files"@
    }
    &&& published_rows_show(app, view.rows@)
    &&& published_changes_show(app, view.changes)
    &&& match (app.active_file, view.editor) {
        (Some(document), Some(editor)) => published_editor_shows(app, document, editor),
        (None, None) => true,
        _ => false,
    }
    &&& match (app.active_diff, view.diff) {
        (Some(diff), Some(published)) => published_diff_shows(diff, published),
        (None, None) => true,
        _ => false,
    }
}

impl BlackholesApp {
    fn published_rows(&self) -> (result: Vec<PublishedTreeRow>)
        requires
            is_nested(self.file_explorer@),
        ensures
            published_rows_show(*self, result@),
    {
        let mut result: Vec<PublishedTreeRow> = Vec::new();
        if !self.file_explorer.open || self.file_explorer.mode != FileExplorerMode::Files {
            return result;
        }
        let mut rest = self.file_tree_rows();
        let ghost shown = shown_rows(*self);
        let ghost rows = rest@;
        while rest.len() > 0
            invariant
                tree_rows(rows) == shown,
                rest@.len() <= rows.len(),
                rest@ == rows.skip(rows.len() - rest@.len()),
                result@.len() == rows.len() - rest@.len(),
                forall|i: int|
                    #![trigger result@[i]]
                    0 <= i < result@.len() ==> {
                        &&& result@[i].row@ == shown[i]
                        &&& result@[i].selected == is_selected(*self, shown[i].path)
                        &&& result@[i].kind@ == row_kind_code(shown[i].kind)
                    },
            decreases rest@.len(),
        {
            let ghost done = rows.len() - rest@.len();
            let row = rest.remove(0);
            assert(rest@ =~= rows.skip(done + 1));
            assert(row@ == tree_rows(rows)[done]);
            let selected: bool = self.selects(row.path.as_str());
            let kind = row_kind_id(row.kind);
            result.push(PublishedTreeRow { row, selected, kind });
        }
        result
    }

    fn published_changes(&self) -> (result: PublishedChanges)
        ensures
            published_changes_show(*self, result),
    {
        match &self.file_explorer.changes.state {
            RepositoryChangesState::Idle => PublishedChanges {
                state: "idle",
                error: None,
                changes: Vec::new(),
            },
            RepositoryChangesState::Loading => PublishedChanges {
                state: "loading",
                error: None,
                changes: Vec::new(),
            },
            RepositoryChangesState::Error(error) => PublishedChanges {
                state: "error",
                error: Some(error.clone()),
                changes: Vec::new(),
            },
            RepositoryChangesState::Ready(changes) => {
                let mut published: Vec<PublishedChange> = Vec::new();
                let mut index: usize = 0;
                while index < changes.len()
                    invariant
                        index <= changes@.len(),
                        published@.len() == index,
                        forall|i: int|
                            #![trigger published@[i]]
                            0 <= i < index ==> {
                                &&& published@[i].relative_path@ == changes@[i].relative_path@
                                &&& text_of(published@[i].previous_relative_path) == text_of(
                                    changes@[i].previous_relative_path,
                                )
                                &&& published@[i].kind@ == change_kind_code(changes@[i].kind)
                                &&& published@[i].selected == is_compared(*self, changes@[i])
                            },
                    decreases changes@.len() - index,
                {
                    let change = &changes[index];
                    let selected: bool = match &self.active_diff {
                        Some(diff) => same_text(
                            diff.change.relative_path.as_str(),
                            change.relative_path.as_str(),
                        ),
                        None => false,
                    };
                    published.push(
                        PublishedChange {
                            relative_path: change.relative_path.clone(),
                            previous_relative_path: copy_text(&change.previous_relative_path),
                            kind: repository_change_kind_id(change.kind),
                            selected,
                        },
                    );
                    index += 1;
                }
                PublishedChanges { state: "ready", error: None, changes: published }
            },
        }
    }

    fn published_editor(&self, document: &FileDocument) -> (result: PublishedEditor)
        ensures
            published_editor_shows(*self, *document, result),
    {
        let (state, error): (&'static str, Option<String>) = match &document.load_state {
            FileDocumentLoadState::Loading => ("loading", None),
            FileDocumentLoadState::Ready(_) => ("loading", None),
            FileDocumentLoadState::Open => ("ready", None),
            FileDocumentLoadState::Error(error) => ("error", Some(error.clone())),
        };
        let (source, workspace_id): (&'static str, Option<Id>) = match document.source {
            FileDocumentSource::Repository => ("repository", None),
            FileDocumentSource::ProjectInstructions(id) => ("project-instructions", Some(id)),
            FileDocumentSource::ProjectTaskInstructions(id) => ("task-instructions", Some(id)),
        };
        let content = match &document.editor {
            Some(content) => content.clone(),
            None => match &document.load_state {
                FileDocumentLoadState::Ready(content) => content.clone(),
                _ => String::new(),
            },
        };
        PublishedEditor {
            request_id: document.request_id,
            state,
            error,
            file_name: self.shown_document_name(document),
            relative_path: self.shown_document_place(document),
            content,
            language: document.language.clone(),
            source,
            workspace_id,
            save_state: note_save_state_id(document.save_state),
            revision: document.revision,
        }
    }

    fn published_diff(document: &FileDiff) -> (result: PublishedDiff)
        ensures
            published_diff_shows(*document, result),
    {
        let mut state: &'static str = "ready";
        let mut error: Option<String> = None;
        let mut original: Option<String> = None;
        let mut modified: Option<String> = None;
        let mut rows: Vec<PublishedDiffRow> = Vec::new();
        let mut truncated: bool = false;
        match &document.load_state {
            FileDiffLoadState::Loading => {
                state = "loading";
            },
            FileDiffLoadState::Error(message) => {
                state = "error";
                error = Some(message.clone());
            },
            FileDiffLoadState::Ready(diff) => {
                original = copy_text(&diff.original);
                modified = copy_text(&diff.modified);
                let whole: bool = diff.original.is_some() && diff.modified.is_some();
                if diff.binary {
                    state = "binary";
                    truncated = diff.truncated;
                } else if !whole {
                    if diff.rows.len() == 0 {
                        state = "empty";
                    }
                    rows = publish_rows(&diff.rows);
                    truncated = diff.truncated;
                }
            },
        }
        PublishedDiff {
            request_id: document.request_id,
            state,
            error,
            file_name: display_file_name(document.change.path.as_str()),
            relative_path: document.change.relative_path.clone(),
            change_kind: repository_change_kind_id(document.change.kind),
            original,
            modified,
            rows,
            truncated,
        }
    }

    /// The workbench as it is published.
    pub fn hydrate_workbench_surface(&self) -> (result: WorkbenchSnapshot)
        requires
            is_nested(self.file_explorer@),
        ensures
            workbench_shows(*self, result),
    {
        WorkbenchSnapshot {
            language: language_id(self.session.language),
            theme: app_theme_id(self.session.theme),
            explorer_open: self.file_explorer.open,
            root_label: self.file_explorer.root_label.clone(),
            root_path: self.root_path_text(),
            mode: if self.file_explorer.mode == FileExplorerMode::Changes {
                "changes"
            } else {
                "files"
            },
            rows: self.published_rows(),
            changes: self.published_changes(),
            editor: match &self.active_file {
                Some(document) => Some(self.published_editor(document)),
                None => None,
            },
            diff: match &self.active_diff {
                Some(document) => Some(Self::published_diff(document)),
                None => None,
            },
        }
    }
}

// ---------------------------------------------------------------------------
// Laws
// ---------------------------------------------------------------------------
/// A line that is on both sides unchanged bears no sign and is drawn alike on
/// both; one that only the committed side had is marked there alone, one that
/// only the local side has is marked there alone, and a changed one on both.
pub proof fn law_sides_marked(
    kind: RepositoryDiffLineKind,
    committed: DiffSideStyle,
    local: DiffSideStyle,
)
    requires
        is_committed_style(kind, committed),
        is_local_style(kind, local),
    ensures
        (committed.prefix@ == "−"@) == (kind == RepositoryDiffLineKind::Deleted || kind
            == RepositoryDiffLineKind::Changed),
        (local.prefix@ == "+"@) == (kind == RepositoryDiffLineKind::Added || kind
            == RepositoryDiffLineKind::Changed),
        kind == RepositoryDiffLineKind::Context ==> {
            &&& committed.prefix@ == " "@
            &&& local.prefix@ == " "@
            &&& committed.prefix_color == local.prefix_color
            &&& committed.background == local.background
            &&& committed.number_background == local.number_background
        },
        kind == RepositoryDiffLineKind::Changed ==> committed.background != local.background,
        kind == RepositoryDiffLineKind::Added ==> committed.background != local.background,
        kind == RepositoryDiffLineKind::Deleted ==> committed.background != local.background,
{
    reveal_strlit("−");
    reveal_strlit("+");
    reveal_strlit(" ");
    assert("−"@[0] != " "@[0]);
    assert("+"@[0] != " "@[0]);
}

/// The committed side of a row shows what was committed and the local side what
/// is there now, parted by a divider after the committed one; a line that is not
/// on a side has no number there.
pub proof fn law_row_sides(row: RepositoryDiffRow, view: DiffRowView)
    requires
        row_shows(row, view),
    ensures
        row is Hunk <==> view is Hunk,
        (row matches RepositoryDiffRow::Hunk { old_start, new_start, header } && (
        view matches DiffRowView::Hunk { committed_head, local_head } && {
            &&& committed_head.number@ == decimal(old_start as nat)
            &&& local_head.number@ == decimal(new_start as nat)
            &&& committed_head.header@ == header@
            &&& local_head.header@ == header@
            &&& committed_head.divider is Some
            &&& local_head.divider is None
        })) || (row matches RepositoryDiffRow::Line {
            old_number,
            new_number,
            old_text,
            new_text,
            kind,
        } && (view matches DiffRowView::Line { committed, local } && {
            &&& committed.text@ == old_text@
            &&& local.text@ == new_text@
            &&& old_number is None ==> committed.number@.len() == 0
            &&& new_number is None ==> local.number@.len() == 0
            &&& (old_number matches Some(number) ==> committed.number@ == decimal(number as nat))
            &&& (new_number matches Some(number) ==> local.number@ == decimal(number as nat))
            &&& committed.divider is Some
            &&& local.divider is None
            &&& kind == RepositoryDiffLineKind::Added ==> committed.style.prefix@ == " "@
                && local.style.prefix@ == "+"@
            &&& kind == RepositoryDiffLineKind::Deleted ==> committed.style.prefix@ == "−"@
                && local.style.prefix@ == " "@
        })),
{
}

/// A row that is published tells its kind apart from every other, and a command
/// that names the kind is understood as that kind; a row that is still read or
/// that failed names nothing that a command could open.
pub proof fn law_row_kinds_read_back(kind: FileTreeRowKind, other: FileTreeRowKind)
    ensures
        kind != other ==> row_kind_code(kind) != row_kind_code(other),
        kind matches FileTreeRowKind::Entry(entry) ==> crate::workspace_commands::row_kind(
            row_kind_code(kind),
        ) == Some(entry),
        kind is Loading || kind is Error ==> crate::workspace_commands::row_kind(
            row_kind_code(kind),
        ) is None,
{
    reveal_strlit("directory");
    reveal_strlit("file");
    reveal_strlit("symlink");
    reveal_strlit("loading");
    reveal_strlit("error");
    assert("directory"@.len() == 9 && "file"@.len() == 4 && "symlink"@.len() == 7
        && "loading"@.len() == 7 && "error"@.len() == 5);
    assert("symlink"@[0] != "loading"@[0]);
}

/// Two kinds of compared lines have different codes.
pub proof fn law_line_kinds(kind: RepositoryDiffLineKind, other: RepositoryDiffLineKind)
    requires
        kind != other,
    ensures
        line_kind_code(kind) != line_kind_code(other),
{
    reveal_strlit("context");
    reveal_strlit("changed");
    reveal_strlit("added");
    reveal_strlit("deleted");
    assert("context"@[1] != "changed"@[1]);
    assert("context"@[1] != "deleted"@[1]);
    assert("changed"@[0] != "deleted"@[0]);
    assert("added"@.len() == 5 && "changed"@.len() == 7 && "deleted"@.len() == 7
        && "context"@.len() == 7);
}

/// The workbench shows the document that is open and no other: what was typed
/// stands in its text, and its save state, its revision and its error are the
/// document's. It shows no document where none is open.
pub proof fn law_document_published(app: BlackholesApp, view: WorkbenchSnapshot)
    requires
        workbench_shows(app, view),
    ensures
        view.editor is Some <==> app.active_file is Some,
        app.active_file matches Some(file) ==> (view.editor matches Some(editor) && {
            &&& editor.request_id == file.request_id
            &&& editor.revision == file.revision
            &&& (file.editor matches Some(typed) ==> editor.content@ == typed@)
            &&& (file.load_state matches FileDocumentLoadState::Error(error) ==> (
            editor.error matches Some(shown) && shown@ == error@))
            &&& !(file.load_state is Error) ==> editor.error is None
            &&& (file.load_state is Open <==> editor.state@ == "ready"@)
            &&& (file.source is Repository <==> editor.workspace_id is None)
        }),
{
    reveal_strlit("ready");
    reveal_strlit("loading");
    reveal_strlit("error");
    assert("ready"@[0] != "error"@[0]);
    assert("ready"@.len() == 5 && "loading"@.len() == 7);
}

/// The workbench lists every local change that is known, in its order, and marks
/// the one that is compared; while the changes are read, and where that failed,
/// it lists none.
pub proof fn law_changes_published(app: BlackholesApp, view: WorkbenchSnapshot, at: int)
    requires
        workbench_shows(app, view),
    ensures
        app.file_explorer.changes.state matches RepositoryChangesState::Ready(changes) ==> {
            &&& view.changes.changes@.len() == changes@.len()
            &&& view.changes.error is None
            &&& 0 <= at < changes@.len() ==> {
                &&& view.changes.changes@[at].relative_path@ == changes@[at].relative_path@
                &&& view.changes.changes@[at].selected <==> (app.active_diff matches Some(diff)
                    && diff.change.relative_path@ == changes@[at].relative_path@)
            }
        },
        app.file_explorer.changes.state !is Ready ==> view.changes.changes@.len() == 0,
        app.file_explorer.changes.state matches RepositoryChangesState::Error(error) ==> (
        view.changes.error matches Some(shown) && shown@ == error@),
        !app.file_explorer.open ==> view.rows@.len() == 0,
{
}

/// A comparison is published with both texts where both were read, else with its
/// rows; a binary file has neither rows nor the state of one that can be read.
pub proof fn law_comparison_published(diff: FileDiff, view: PublishedDiff, at: int)
    requires
        published_diff_shows(diff, view),
    ensures
        view.request_id == diff.request_id,
        view.relative_path@ == diff.change.relative_path@,
        diff.load_state matches FileDiffLoadState::Ready(read) ==> {
            &&& view.error is None
            &&& (read.original matches Some(text) ==> (view.original matches Some(shown) && shown@
                == text@))
            &&& (read.modified matches Some(text) ==> (view.modified matches Some(shown) && shown@
                == text@))
            &&& read.binary ==> view.rows@.len() == 0 && view.state@ == "binary"@
            &&& !read.binary && read.original is None && 0 <= at < read.rows@.len() ==> {
                &&& view.state@ == "ready"@
                &&& view.rows@.len() == read.rows@.len()
                &&& view.truncated == read.truncated
                &&& (read.rows@[at] matches RepositoryDiffRow::Line {
                    old_number,
                    new_number,
                    old_text,
                    new_text,
                    kind: _,
                } ==> (view.rows@[at] matches PublishedDiffRow::Line {
                    row_type: _,
                    kind: _,
                    old_number: shown_old,
                    new_number: shown_new,
                    old_text: shown_old_text,
                    new_text: shown_new_text,
                } && shown_old == old_number && shown_new == new_number && shown_old_text@
                    == old_text@ && shown_new_text@ == new_text@))
            }
        },
        diff.load_state matches FileDiffLoadState::Error(error) ==> (view.error matches Some(shown)
            && shown@ == error@ && view.rows@.len() == 0),
{
}

} // verus!
