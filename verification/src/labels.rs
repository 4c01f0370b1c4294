//! The identifiers, labels and colours that records are shown with.
use vstd::prelude::*;
use vstd::string::*;

use crate::model::{in_language, tr, AppTheme, Language, WorkspaceColor};
use crate::paths::{extension, extension_of, file_name, name_of};
use crate::text::{decimal, decimal_text, join3, join5, same_text};

verus! {

#[derive(Clone, Copy, Debug, PartialEq, Eq, Structural)]
pub enum AppIcon {
    Code2,
    Database,
    File,
    Folder,
    FolderOpen,
    GitBranch,
    Globe,
    Layers3,
    ListTodo,
    Rocket,
    SquareTerminal,
}

#[derive(Clone, Copy, Debug, PartialEq, Eq, Structural)]
pub enum FileEntryKind {
    Directory,
    File,
    Symlink,
}

#[derive(Clone, Copy, Debug, PartialEq, Eq, Structural)]
pub enum RepositoryChangeKind {
    Added,
    Deleted,
    Modified,
    Renamed,
    Untracked,
    Conflicted,
}

#[derive(Clone, Copy, Debug, PartialEq, Eq, Structural)]
pub enum NoteSaveState {
    Saved,
    Saving,
    Error,
}

// ---------------------------------------------------------------------------
// Identifiers
// ---------------------------------------------------------------------------
pub open spec fn language_code(language: Language) -> Seq<char> {
    in_language(language, "en"@, "es"@)
}

pub fn language_id(language: Language) -> (result: &'static str)
    ensures
        result@ == language_code(language),
{
    tr(language, "en", "es")
}

pub open spec fn theme_code(theme: AppTheme) -> Seq<char> {
    match theme {
        AppTheme::Light => "light"@,
        AppTheme::Dark => "dark"@,
    }
}

pub fn app_theme_id(theme: AppTheme) -> (result: &'static str)
    ensures
        result@ == theme_code(theme),
{
    match theme {
        AppTheme::Light => "light",
        AppTheme::Dark => "dark",
    }
}

pub open spec fn save_state_code(state: NoteSaveState) -> Seq<char> {
    match state {
        NoteSaveState::Saved => "saved"@,
        NoteSaveState::Saving => "saving"@,
        NoteSaveState::Error => "error"@,
    }
}

pub fn note_save_state_id(state: NoteSaveState) -> (result: &'static str)
    ensures
        result@ == save_state_code(state),
{
    match state {
        NoteSaveState::Saved => "saved",
        NoteSaveState::Saving => "saving",
        NoteSaveState::Error => "error",
    }
}

pub open spec fn color_code(color: WorkspaceColor) -> Seq<char> {
    match color {
        WorkspaceColor::Slate => "slate"@,
        WorkspaceColor::Coral => "coral"@,
        WorkspaceColor::Peach => "peach"@,
        WorkspaceColor::Amber => "amber"@,
        WorkspaceColor::Sage => "sage"@,
        WorkspaceColor::Mint => "mint"@,
        WorkspaceColor::Sky => "sky"@,
        WorkspaceColor::Lavender => "lavender"@,
        WorkspaceColor::Rose => "rose"@,
    }
}

pub fn workspace_color_id(color: WorkspaceColor) -> (result: &'static str)
    ensures
        result@ == color_code(color),
{
    match color {
        WorkspaceColor::Slate => "slate",
        WorkspaceColor::Coral => "coral",
        WorkspaceColor::Peach => "peach",
        WorkspaceColor::Amber => "amber",
        WorkspaceColor::Sage => "sage",
        WorkspaceColor::Mint => "mint",
        WorkspaceColor::Sky => "sky",
        WorkspaceColor::Lavender => "lavender",
        WorkspaceColor::Rose => "rose",
    }
}

pub open spec fn change_kind_code(kind: RepositoryChangeKind) -> Seq<char> {
    match kind {
        RepositoryChangeKind::Added => "added"@,
        RepositoryChangeKind::Deleted => "deleted"@,
        RepositoryChangeKind::Modified => "modified"@,
        RepositoryChangeKind::Renamed => "renamed"@,
        RepositoryChangeKind::Untracked => "untracked"@,
        RepositoryChangeKind::Conflicted => "conflicted"@,
    }
}

pub fn repository_change_kind_id(kind: RepositoryChangeKind) -> (result: &'static str)
    ensures
        result@ == change_kind_code(kind),
{
    match kind {
        RepositoryChangeKind::Added => "added",
        RepositoryChangeKind::Deleted => "deleted",
        RepositoryChangeKind::Modified => "modified",
        RepositoryChangeKind::Renamed => "renamed",
        RepositoryChangeKind::Untracked => "untracked",
        RepositoryChangeKind::Conflicted => "conflicted",
    }
}

// ---------------------------------------------------------------------------
// Colours
// ---------------------------------------------------------------------------
/// The colour of a project or task, as `0xRRGGBB`.
pub open spec fn color_value(color: WorkspaceColor) -> u32 {
    match color {
        WorkspaceColor::Slate => 0x9aa3ae,
        WorkspaceColor::Coral => 0xd99084,
        WorkspaceColor::Peach => 0xdda57e,
        WorkspaceColor::Amber => 0xd1b46f,
        WorkspaceColor::Sage => 0x96b39a,
        WorkspaceColor::Mint => 0x8db9ab,
        WorkspaceColor::Sky => 0x8db3cf,
        WorkspaceColor::Lavender => 0xa597c8,
        WorkspaceColor::Rose => 0xc796aa,
    }
}

pub fn workspace_color(color: WorkspaceColor) -> (result: u32)
    ensures
        result == color_value(color),
{
    match color {
        WorkspaceColor::Slate => 0x9aa3ae,
        WorkspaceColor::Coral => 0xd99084,
        WorkspaceColor::Peach => 0xdda57e,
        WorkspaceColor::Amber => 0xd1b46f,
        WorkspaceColor::Sage => 0x96b39a,
        WorkspaceColor::Mint => 0x8db9ab,
        WorkspaceColor::Sky => 0x8db3cf,
        WorkspaceColor::Lavender => 0xa597c8,
        WorkspaceColor::Rose => 0xc796aa,
    }
}

/// The colour of a project or task, as a style sheet writes it.
pub open spec fn color_css(color: WorkspaceColor) -> Seq<char> {
    match color {
        WorkspaceColor::Slate => "#9aa3ae"@,
        WorkspaceColor::Coral => "#d99084"@,
        WorkspaceColor::Peach => "#dda57e"@,
        WorkspaceColor::Amber => "#d1b46f"@,
        WorkspaceColor::Sage => "#96b39a"@,
        WorkspaceColor::Mint => "#8db9ab"@,
        WorkspaceColor::Sky => "#8db3cf"@,
        WorkspaceColor::Lavender => "#a597c8"@,
        WorkspaceColor::Rose => "#c796aa"@,
    }
}

pub fn workspace_color_css(color: WorkspaceColor) -> (result: &'static str)
    ensures
        result@ == color_css(color),
{
    match color {
        WorkspaceColor::Slate => "#9aa3ae",
        WorkspaceColor::Coral => "#d99084",
        WorkspaceColor::Peach => "#dda57e",
        WorkspaceColor::Amber => "#d1b46f",
        WorkspaceColor::Sage => "#96b39a",
        WorkspaceColor::Mint => "#8db9ab",
        WorkspaceColor::Sky => "#8db3cf",
        WorkspaceColor::Lavender => "#a597c8",
        WorkspaceColor::Rose => "#c796aa",
    }
}

/// The colours a project can have, in the order they are offered.
pub open spec fn project_color_choices() -> Seq<WorkspaceColor> {
    seq![
        WorkspaceColor::Slate,
        WorkspaceColor::Coral,
        WorkspaceColor::Peach,
        WorkspaceColor::Amber,
        WorkspaceColor::Sage,
        WorkspaceColor::Mint,
        WorkspaceColor::Sky,
        WorkspaceColor::Lavender,
        WorkspaceColor::Rose,
    ]
}

/// The colours a project can have, in the order they are offered.
pub fn project_colors() -> (result: Vec<WorkspaceColor>)
    ensures
        result@ == project_color_choices(),
{
    let mut colors: Vec<WorkspaceColor> = Vec::new();
    colors.push(WorkspaceColor::Slate);
    colors.push(WorkspaceColor::Coral);
    colors.push(WorkspaceColor::Peach);
    colors.push(WorkspaceColor::Amber);
    colors.push(WorkspaceColor::Sage);
    colors.push(WorkspaceColor::Mint);
    colors.push(WorkspaceColor::Sky);
    colors.push(WorkspaceColor::Lavender);
    colors.push(WorkspaceColor::Rose);
    assert(colors@ =~= project_color_choices());
    colors
}

/// An opaque `0xRRGGBB` colour as `rgba(r, g, b, 1.000)`.
pub open spec fn opaque_css(color: u32) -> Seq<char> {
    "rgba("@ + decimal(((color / 0x10000) % 0x100) as nat) + ", "@ + decimal(
        ((color / 0x100) % 0x100) as nat,
    ) + ", "@ + decimal((color % 0x100) as nat) + ", 1.000)"@
}

pub fn quick_open_css_color(color: u32) -> (result: String)
    ensures
        result@ == opaque_css(color),
{
    let red = decimal_text(((color / 0x10000) % 0x100) as u64);
    let green = decimal_text(((color / 0x100) % 0x100) as u64);
    let blue = decimal_text((color % 0x100) as u64);
    let head = join5("rgba(", red.as_str(), ", ", green.as_str(), ", ");
    join3(head.as_str(), blue.as_str(), ", 1.000)")
}

/// The letter that marks a change.
pub open spec fn change_letter(kind: RepositoryChangeKind) -> Seq<char> {
    match kind {
        RepositoryChangeKind::Added => "A"@,
        RepositoryChangeKind::Deleted => "D"@,
        RepositoryChangeKind::Modified => "M"@,
        RepositoryChangeKind::Renamed => "R"@,
        RepositoryChangeKind::Untracked => "U"@,
        RepositoryChangeKind::Conflicted => "!"@,
    }
}

/// The colour that marks a change.
pub open spec fn change_color(kind: RepositoryChangeKind) -> u32 {
    match kind {
        RepositoryChangeKind::Added => 0x56b881,
        RepositoryChangeKind::Deleted => 0xd7656f,
        RepositoryChangeKind::Modified => 0xd1b46f,
        RepositoryChangeKind::Renamed => 0x8db3cf,
        RepositoryChangeKind::Untracked => 0x56b881,
        RepositoryChangeKind::Conflicted => 0xff7b72,
    }
}

pub fn repository_change_style(kind: RepositoryChangeKind) -> (result: (&'static str, u32))
    ensures
        result.0@ == change_letter(kind),
        result.1 == change_color(kind),
{
    match kind {
        RepositoryChangeKind::Added => ("A", 0x56b881),
        RepositoryChangeKind::Deleted => ("D", 0xd7656f),
        RepositoryChangeKind::Modified => ("M", 0xd1b46f),
        RepositoryChangeKind::Renamed => ("R", 0x8db3cf),
        RepositoryChangeKind::Untracked => ("U", 0x56b881),
        RepositoryChangeKind::Conflicted => ("!", 0xff7b72),
    }
}

/// The word for a change.
pub open spec fn change_word(kind: RepositoryChangeKind, language: Language) -> Seq<char> {
    match kind {
        RepositoryChangeKind::Added => in_language(language, "Added"@, "Agregado"@),
        RepositoryChangeKind::Deleted => in_language(language, "Deleted"@, "Eliminado"@),
        RepositoryChangeKind::Modified => in_language(language, "Modified"@, "Modificado"@),
        RepositoryChangeKind::Renamed => in_language(language, "Renamed"@, "Renombrado"@),
        RepositoryChangeKind::Untracked => in_language(language, "Untracked"@, "Nuevo"@),
        RepositoryChangeKind::Conflicted => in_language(language, "Conflict"@, "Conflicto"@),
    }
}

pub fn change_label(kind: RepositoryChangeKind, language: Language) -> (result: &'static str)
    ensures
        result@ == change_word(kind, language),
{
    match kind {
        RepositoryChangeKind::Added => tr(language, "Added", "Agregado"),
        RepositoryChangeKind::Deleted => tr(language, "Deleted", "Eliminado"),
        RepositoryChangeKind::Modified => tr(language, "Modified", "Modificado"),
        RepositoryChangeKind::Renamed => tr(language, "Renamed", "Renombrado"),
        RepositoryChangeKind::Untracked => tr(language, "Untracked", "Nuevo"),
        RepositoryChangeKind::Conflicted => tr(language, "Conflict", "Conflicto"),
    }
}

/// The word for how far a document is saved.
pub open spec fn save_word(state: NoteSaveState, language: Language) -> Seq<char> {
    match state {
        NoteSaveState::Saved => in_language(language, "Saved"@, "Guardado"@),
        NoteSaveState::Saving => in_language(language, "Saving…"@, "Guardando…"@),
        NoteSaveState::Error => in_language(language, "Save failed"@, "Error al guardar"@),
    }
}

pub fn note_save_label(state: NoteSaveState, language: Language) -> (result: &'static str)
    ensures
        result@ == save_word(state, language),
{
    match state {
        NoteSaveState::Saved => tr(language, "Saved", "Guardado"),
        NoteSaveState::Saving => tr(language, "Saving…", "Guardando…"),
        NoteSaveState::Error => tr(language, "Save failed", "Error al guardar"),
    }
}

/// The colour of the word for how far a document is saved.
pub open spec fn save_color(state: NoteSaveState) -> u32 {
    match state {
        NoteSaveState::Saved => 0x8e97aa,
        NoteSaveState::Saving => 0xe3b341,
        NoteSaveState::Error => 0xff7b72,
    }
}

pub fn note_save_color(state: NoteSaveState) -> (result: u32)
    ensures
        result == save_color(state),
{
    match state {
        NoteSaveState::Saved => 0x8e97aa,
        NoteSaveState::Saving => 0xe3b341,
        NoteSaveState::Error => 0xff7b72,
    }
}

// ---------------------------------------------------------------------------
// Icons
// ---------------------------------------------------------------------------
/// The icon that a project or task is stored with.
pub open spec fn icon_named(icon: Seq<char>) -> AppIcon {
    if icon == "folder"@ {
        AppIcon::Folder
    } else if icon == "code"@ || icon == "code-2"@ {
        AppIcon::Code2
    } else if icon == "terminal"@ || icon == "square-terminal"@ {
        AppIcon::SquareTerminal
    } else if icon == "rocket"@ {
        AppIcon::Rocket
    } else if icon == "database"@ {
        AppIcon::Database
    } else if icon == "globe"@ {
        AppIcon::Globe
    } else if icon == "list-todo"@ {
        AppIcon::ListTodo
    } else if icon == "git-branch"@ {
        AppIcon::GitBranch
    } else {
        AppIcon::Layers3
    }
}

pub fn project_icon_kind(icon: &str) -> (result: AppIcon)
    ensures
        result == icon_named(icon@),
{
    if same_text(icon, "folder") {
        AppIcon::Folder
    } else if same_text(icon, "code") || same_text(icon, "code-2") {
        AppIcon::Code2
    } else if same_text(icon, "terminal") || same_text(icon, "square-terminal") {
        AppIcon::SquareTerminal
    } else if same_text(icon, "rocket") {
        AppIcon::Rocket
    } else if same_text(icon, "database") {
        AppIcon::Database
    } else if same_text(icon, "globe") {
        AppIcon::Globe
    } else if same_text(icon, "list-todo") {
        AppIcon::ListTodo
    } else if same_text(icon, "git-branch") {
        AppIcon::GitBranch
    } else {
        AppIcon::Layers3
    }
}

/// The name of an icon in the quick-open palette.
pub open spec fn icon_code(icon: AppIcon) -> Seq<char> {
    match icon {
        AppIcon::Code2 => "code"@,
        AppIcon::Database => "database"@,
        AppIcon::File => "file"@,
        AppIcon::Folder | AppIcon::FolderOpen => "folder"@,
        AppIcon::GitBranch => "branch"@,
        AppIcon::Globe => "globe"@,
        AppIcon::ListTodo => "list"@,
        AppIcon::Rocket => "rocket"@,
        AppIcon::SquareTerminal => "terminal"@,
        AppIcon::Layers3 => "layers"@,
    }
}

pub fn quick_open_icon_id(icon: AppIcon) -> (result: &'static str)
    ensures
        result@ == icon_code(icon),
{
    match icon {
        AppIcon::Code2 => "code",
        AppIcon::Database => "database",
        AppIcon::File => "file",
        AppIcon::Folder | AppIcon::FolderOpen => "folder",
        AppIcon::GitBranch => "branch",
        AppIcon::Globe => "globe",
        AppIcon::ListTodo => "list",
        AppIcon::Rocket => "rocket",
        AppIcon::SquareTerminal => "terminal",
        AppIcon::Layers3 => "layers",
    }
}

/// An icon on offer for a project.
#[derive(Debug)]
pub struct IconOption {
    pub value: &'static str,
    pub label: &'static str,
    pub icon: AppIcon,
}

/// The icons on offer, by their stored name and label.
pub open spec fn icon_choices(language: Language) -> Seq<(Seq<char>, Seq<char>)> {
    seq![
        ("layers"@, in_language(language, "Layers"@, "Capas"@)),
        ("folder"@, in_language(language, "Folder"@, "Carpeta"@)),
        ("code-2"@, in_language(language, "Code"@, "Código"@)),
        ("square-terminal"@, in_language(language, "Terminal"@, "Terminal"@)),
        ("rocket"@, in_language(language, "Rocket"@, "Cohete"@)),
        ("database"@, in_language(language, "Database"@, "Base de datos"@)),
        ("globe"@, in_language(language, "Globe"@, "Globo"@)),
        ("list-todo"@, in_language(language, "Tasks"@, "Tareas"@)),
        ("git-branch"@, in_language(language, "Branch"@, "Rama"@)),
    ]
}

fn icon_option(value: &'static str, label: &'static str) -> (result: IconOption)
    ensures
        result.value@ == value@,
        result.label@ == label@,
        result.icon == icon_named(value@),
{
    IconOption { value, label, icon: project_icon_kind(value) }
}

/// The icons on offer for a project, each the one its name stands for.
pub fn project_icon_options(language: Language) -> (result: Vec<IconOption>)
    ensures
        result@.len() == icon_choices(language).len(),
        forall|i: int|
            0 <= i < result@.len() ==> {
                &&& ((#[trigger] result@[i]).value@, result@[i].label@) == icon_choices(language)[i]
                &&& result@[i].icon == icon_named(result@[i].value@)
            },
{
    let mut options: Vec<IconOption> = Vec::new();
    options.push(icon_option("layers", tr(language, "Layers", "Capas")));
    options.push(icon_option("folder", tr(language, "Folder", "Carpeta")));
    options.push(icon_option("code-2", tr(language, "Code", "Código")));
    options.push(icon_option("square-terminal", tr(language, "Terminal", "Terminal")));
    options.push(icon_option("rocket", tr(language, "Rocket", "Cohete")));
    options.push(icon_option("database", tr(language, "Database", "Base de datos")));
    options.push(icon_option("globe", tr(language, "Globe", "Globo")));
    options.push(icon_option("list-todo", tr(language, "Tasks", "Tareas")));
    options.push(icon_option("git-branch", tr(language, "Branch", "Rama")));
    options
}

/// The icon of a file by its extension.
pub open spec fn file_icon(extension: Seq<char>) -> (AppIcon, u32) {
    if extension == "rs"@ {
        (AppIcon::Code2, 0xd99084)
    } else if extension == "js"@ || extension == "jsx"@ || extension == "ts"@ || extension == "tsx"@ {
        (AppIcon::Code2, 0xd1b46f)
    } else if extension == "html"@ || extension == "css"@ || extension == "scss"@ || extension == "vue"@
        || extension == "svelte"@ {
        (AppIcon::Code2, 0x8db3cf)
    } else if extension == "go"@ || extension == "py"@ || extension == "rb"@ || extension == "java"@
        || extension == "kt"@ || extension == "swift"@ || extension == "c"@ || extension == "cc"@
        || extension == "cpp"@ || extension == "h"@ || extension == "hpp"@ || extension == "sh"@ {
        (AppIcon::Code2, 0x96b39a)
    } else if extension == "json"@ || extension == "toml"@ || extension == "yaml"@ || extension == "yml"@
        || extension == "xml"@ {
        (AppIcon::File, 0xa597c8)
    } else if extension == "md"@ || extension == "mdx"@ || extension == "txt"@ {
        (AppIcon::File, 0x9aa3ae)
    } else {
        (AppIcon::File, 0x8e97aa)
    }
}

/// The icon and colour of an entry of a file tree.
pub open spec fn entry_icon(kind: FileEntryKind, path: Seq<char>, expanded: bool) -> (AppIcon, u32) {
    match kind {
        FileEntryKind::Directory => (
            if expanded {
                AppIcon::FolderOpen
            } else {
                AppIcon::Folder
            },
            0xd1b46f,
        ),
        FileEntryKind::Symlink => (AppIcon::File, 0x8db3cf),
        FileEntryKind::File => file_icon(extension_of(path)),
    }
}

/// The icon and colour of an entry of a file tree.
pub fn file_tree_icon(kind: FileEntryKind, path: &str, expanded: bool) -> (result: (AppIcon, u32))
    ensures
        result == entry_icon(kind, path@, expanded),
{
    match kind {
        FileEntryKind::Directory => {
            if expanded {
                (AppIcon::FolderOpen, 0xd1b46f)
            } else {
                (AppIcon::Folder, 0xd1b46f)
            }
        },
        FileEntryKind::Symlink => (AppIcon::File, 0x8db3cf),
        FileEntryKind::File => {
            let extension = extension(path);
            let e = extension.as_str();
            if same_text(e, "rs") {
                (AppIcon::Code2, 0xd99084)
            } else if same_text(e, "js") || same_text(e, "jsx") || same_text(e, "ts") || same_text(e, "tsx") {
                (AppIcon::Code2, 0xd1b46f)
            } else if same_text(e, "html") || same_text(e, "css") || same_text(e, "scss") || same_text(
                e,
                "vue",
            ) || same_text(e, "svelte") {
                (AppIcon::Code2, 0x8db3cf)
            } else if same_text(e, "go") || same_text(e, "py") || same_text(e, "rb") || same_text(e, "java")
                || same_text(e, "kt") || same_text(e, "swift") || same_text(e, "c") || same_text(e, "cc")
                || same_text(e, "cpp") || same_text(e, "h") || same_text(e, "hpp") || same_text(e, "sh") {
                (AppIcon::Code2, 0x96b39a)
            } else if same_text(e, "json") || same_text(e, "toml") || same_text(e, "yaml") || same_text(
                e,
                "yml",
            ) || same_text(e, "xml") {
                (AppIcon::File, 0xa597c8)
            } else if same_text(e, "md") || same_text(e, "mdx") || same_text(e, "txt") {
                (AppIcon::File, 0x9aa3ae)
            } else {
                (AppIcon::File, 0x8e97aa)
            }
        },
    }
}

/// The editor language that an extension stands for.
pub open spec fn language_by_extension(extension: Seq<char>) -> Option<Seq<char>> {
    if extension == "bash"@ || extension == "sh"@ || extension == "zsh"@ {
        Some("bash"@)
    } else if extension == "c"@ || extension == "h"@ {
        Some("c"@)
    } else if extension == "cc"@ || extension == "cpp"@ || extension == "cxx"@ || extension == "hpp"@ {
        Some("cpp"@)
    } else if extension == "cs"@ {
        Some("csharp"@)
    } else if extension == "css"@ || extension == "scss"@ {
        Some("css"@)
    } else if extension == "diff"@ || extension == "patch"@ {
        Some("diff"@)
    } else if extension == "ex"@ || extension == "exs"@ {
        Some("elixir"@)
    } else if extension == "go"@ {
        Some("go"@)
    } else if extension == "graphql"@ || extension == "gql"@ {
        Some("graphql"@)
    } else if extension == "html"@ || extension == "htm"@ || extension == "vue"@ || extension == "svelte"@ {
        Some("html"@)
    } else if extension == "java"@ || extension == "kt"@ || extension == "kts"@ {
        Some("java"@)
    } else if extension == "js"@ || extension == "jsx"@ || extension == "mjs"@ || extension == "cjs"@ {
        Some("javascript"@)
    } else if extension == "json"@ || extension == "jsonc"@ {
        Some("json"@)
    } else if extension == "md"@ || extension == "mdx"@ {
        Some("markdown"@)
    } else if extension == "proto"@ {
        Some("proto"@)
    } else if extension == "py"@ {
        Some("python"@)
    } else if extension == "rb"@ {
        Some("ruby"@)
    } else if extension == "rs"@ {
        Some("rust"@)
    } else if extension == "scala"@ {
        Some("scala"@)
    } else if extension == "sql"@ {
        Some("sql"@)
    } else if extension == "swift"@ {
        Some("swift"@)
    } else if extension == "toml"@ {
        Some("toml"@)
    } else if extension == "ts"@ || extension == "dart"@ {
        Some("typescript"@)
    } else if extension == "tsx"@ {
        Some("tsx"@)
    } else if extension == "yaml"@ || extension == "yml"@ {
        Some("yaml"@)
    } else if extension == "zig"@ {
        Some("zig"@)
    } else {
        None
    }
}

/// The editor language of a file: by its extension, else by its name.
pub open spec fn language_of(path: Seq<char>) -> Seq<char> {
    match language_by_extension(extension_of(path)) {
        Some(language) => language,
        None => if name_of(path) == Some("CMakeLists.txt"@) {
            "cmake"@
        } else if name_of(path) == Some("Dockerfile"@) || name_of(path) == Some("Makefile"@) {
            "make"@
        } else {
            "text"@
        },
    }
}

fn extension_language(e: &str) -> (result: Option<&'static str>)
    ensures
        match result {
            Some(language) => language_by_extension(e@) == Some(language@),
            None => language_by_extension(e@) is None,
        },
{
    if same_text(e, "bash") || same_text(e, "sh") || same_text(e, "zsh") {
        Some("bash")
    } else if same_text(e, "c") || same_text(e, "h") {
        Some("c")
    } else if same_text(e, "cc") || same_text(e, "cpp") || same_text(e, "cxx") || same_text(e, "hpp") {
        Some("cpp")
    } else if same_text(e, "cs") {
        Some("csharp")
    } else if same_text(e, "css") || same_text(e, "scss") {
        Some("css")
    } else if same_text(e, "diff") || same_text(e, "patch") {
        Some("diff")
    } else if same_text(e, "ex") || same_text(e, "exs") {
        Some("elixir")
    } else if same_text(e, "go") {
        Some("go")
    } else if same_text(e, "graphql") || same_text(e, "gql") {
        Some("graphql")
    } else if same_text(e, "html") || same_text(e, "htm") || same_text(e, "vue") || same_text(e, "svelte") {
        Some("html")
    } else if same_text(e, "java") || same_text(e, "kt") || same_text(e, "kts") {
        Some("java")
    } else if same_text(e, "js") || same_text(e, "jsx") || same_text(e, "mjs") || same_text(e, "cjs") {
        Some("javascript")
    } else if same_text(e, "json") || same_text(e, "jsonc") {
        Some("json")
    } else if same_text(e, "md") || same_text(e, "mdx") {
        Some("markdown")
    } else if same_text(e, "proto") {
        Some("proto")
    } else if same_text(e, "py") {
        Some("python")
    } else if same_text(e, "rb") {
        Some("ruby")
    } else if same_text(e, "rs") {
        Some("rust")
    } else if same_text(e, "scala") {
        Some("scala")
    } else if same_text(e, "sql") {
        Some("sql")
    } else if same_text(e, "swift") {
        Some("swift")
    } else if same_text(e, "toml") {
        Some("toml")
    } else if same_text(e, "ts") || same_text(e, "dart") {
        Some("typescript")
    } else if same_text(e, "tsx") {
        Some("tsx")
    } else if same_text(e, "yaml") || same_text(e, "yml") {
        Some("yaml")
    } else if same_text(e, "zig") {
        Some("zig")
    } else {
        None
    }
}

/// The editor language of a file.
pub fn file_editor_language(path: &str) -> (result: &'static str)
    ensures
        result@ == language_of(path@),
{
    let extension = extension(path);
    match extension_language(extension.as_str()) {
        Some(language) => language,
        None => match file_name(path) {
            Some(name) => {
                if same_text(name.as_str(), "CMakeLists.txt") {
                    "cmake"
                } else if same_text(name.as_str(), "Dockerfile") || same_text(
                    name.as_str(),
                    "Makefile",
                ) {
                    "make"
                } else {
                    "text"
                }
            },
            None => "text",
        },
    }
}

// ---------------------------------------------------------------------------
// Laws
// ---------------------------------------------------------------------------
/// Two kinds of change have neither the code nor the letter in common.
pub proof fn law_change_codes(one: RepositoryChangeKind, other: RepositoryChangeKind)
    requires
        one != other,
    ensures
        change_kind_code(one) != change_kind_code(other),
        change_letter(one) != change_letter(other),
{
    reveal_strlit("added");
    reveal_strlit("deleted");
    reveal_strlit("modified");
    reveal_strlit("renamed");
    reveal_strlit("untracked");
    reveal_strlit("conflicted");
    reveal_strlit("A");
    reveal_strlit("D");
    reveal_strlit("M");
    reveal_strlit("R");
    reveal_strlit("U");
    reveal_strlit("!");
    assert(change_kind_code(one)[0] != change_kind_code(other)[0] || change_kind_code(one).len()
        != change_kind_code(other).len());
    assert(change_letter(one)[0] != change_letter(other)[0]);
}

/// Two states of saving, and the two themes, have different codes.
pub proof fn law_state_codes(
    one: NoteSaveState,
    other: NoteSaveState,
    theme: AppTheme,
    other_theme: AppTheme,
)
    ensures
        one != other ==> save_state_code(one) != save_state_code(other),
        theme != other_theme ==> theme_code(theme) != theme_code(other_theme),
{
    reveal_strlit("saved");
    reveal_strlit("saving");
    reveal_strlit("error");
    reveal_strlit("light");
    reveal_strlit("dark");
    if one != other {
        assert(save_state_code(one).len() != save_state_code(other).len() || save_state_code(one)[0]
            != save_state_code(other)[0]);
    }
    if theme != other_theme {
        assert(theme_code(theme).len() != theme_code(other_theme).len());
    }
}

/// Two colours of projects have different codes.
pub proof fn law_color_codes(one: WorkspaceColor, other: WorkspaceColor)
    requires
        one != other,
    ensures
        color_code(one) != color_code(other),
{
    reveal_strlit("slate");
    reveal_strlit("coral");
    reveal_strlit("peach");
    reveal_strlit("amber");
    reveal_strlit("sage");
    reveal_strlit("mint");
    reveal_strlit("sky");
    reveal_strlit("lavender");
    reveal_strlit("rose");
    assert(color_code(one).len() != color_code(other).len() || color_code(one)[0] != color_code(
        other,
    )[0]);
}

/// A folder is drawn open exactly where it is expanded, and unlike any file or
/// link.
pub proof fn law_folder_icon(path: Seq<char>, other: Seq<char>, expanded: bool)
    ensures
        entry_icon(FileEntryKind::Directory, path, true).0 != entry_icon(
            FileEntryKind::Directory,
            path,
            false,
        ).0,
        entry_icon(FileEntryKind::Directory, path, expanded) == entry_icon(
            FileEntryKind::Directory,
            other,
            expanded,
        ),
        entry_icon(FileEntryKind::File, path, true) == entry_icon(FileEntryKind::File, path, false),
        entry_icon(FileEntryKind::Directory, path, expanded) != entry_icon(
            FileEntryKind::Symlink,
            other,
            expanded,
        ),
{
}

} // verus!
