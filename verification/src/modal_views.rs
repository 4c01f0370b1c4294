//! What the dialogs over the central surface show.
use vstd::prelude::*;
use vstd::string::*;

use crate::app::BlackholesApp;
use crate::effects::ModalKind;
use crate::ids::Id;
use crate::labels::{
    icon_choices, project_color_choices, project_colors, project_icon_options, IconOption,
};
use crate::model::{
    copy_text, find_repository, find_task, find_terminal, find_workspace, in_language,
    repository_at, task_at, terminal_at, text_of, tr, workspace_at, Language, Repository,
    WorkspaceColor,
};
use crate::navigation::terminal_context;

verus! {

/// What a dialog shows.
#[derive(Debug)]
pub struct ModalView {
    pub title: &'static str,
    pub name: String,
    pub context: Option<String>,
    pub description: &'static str,
    pub confirm_label: &'static str,
    pub cancel_label: &'static str,
    /// The folder of the project, for a dialog about its repositories.
    pub root: Option<String>,
    /// Whether the terminals are under the dialog, where it can be over them.
    pub over_terminal: Option<bool>,
    /// Whether the dialog is moved to the middle of the window, beside the sidebar.
    pub shifted: bool,
    /// How the project looks and can look, for the dialog that changes it.
    pub appearance: Option<ModalAppearance>,
    /// The repositories of the project, for the dialog for a new task.
    pub repositories: Vec<ModalRepository>,
}

/// How a project looks, and the choices for it.
#[derive(Debug)]
pub struct ModalAppearance {
    pub icon: String,
    pub color: WorkspaceColor,
    pub icon_options: Vec<IconOption>,
    pub color_options: Vec<WorkspaceColor>,
}

/// A repository that a new task can have.
#[derive(Debug)]
pub struct ModalRepository {
    pub id: Id,
    pub name: String,
}

/// The choices are the icons of projects in a language.
pub open spec fn icons_offered(options: Seq<IconOption>, language: Language) -> bool {
    &&& options.len() == icon_choices(language).len()
    &&& forall|i: int|
        0 <= i < options.len() ==> ((#[trigger] options[i]).value@, options[i].label@)
            == icon_choices(language)[i]
}

/// The choices are the repositories, in their order.
pub open spec fn repositories_offered(options: Seq<ModalRepository>, repositories: Seq<Repository>) -> bool {
    &&& options.len() == repositories.len()
    &&& forall|i: int|
        0 <= i < options.len() ==> (#[trigger] options[i]).id == repositories[i].id
            && options[i].name@ == repositories[i].name@
}

fn offer_repositories(repositories: &Vec<Repository>) -> (result: Vec<ModalRepository>)
    ensures
        repositories_offered(result@, repositories@),
{
    let mut result: Vec<ModalRepository> = Vec::new();
    let mut index: usize = 0;
    while index < repositories.len()
        invariant
            index <= repositories@.len(),
            result@.len() == index,
            forall|i: int|
                0 <= i < index ==> (#[trigger] result@[i]).id == repositories@[i].id
                    && result@[i].name@ == repositories@[i].name@,
        decreases repositories@.len() - index,
    {
        let repository = &repositories[index];
        result.push(ModalRepository { id: repository.id, name: repository.name.clone() });
        index += 1;
    }
    result
}

/// The texts of a dialog.
#[derive(Debug)]
pub struct ModalTexts {
    pub title: &'static str,
    pub description: &'static str,
    pub confirm_label: &'static str,
}

impl ModalTexts {
    pub open spec fn are(&self, title: Seq<char>, description: Seq<char>, confirm: Seq<char>) -> bool {
        self.title@ == title && self.description@ == description && self.confirm_label@ == confirm
    }

    /// The texts are those of a dialog in a language. `linked` is whether the
    /// repository of a removal is only linked.
    pub open spec fn are_of(&self, kind: ModalKind, language: Language, linked: bool) -> bool {
        match kind {
            ModalKind::EditProject { .. } => self.are(
                in_language(language, "Edit project"@, "Editar proyecto"@),
                in_language(
                    language,
                    "Change how this project appears in Blackholes. Its folder and repositories will not be renamed."@,
                    "Cambia cómo aparece este proyecto en Blackholes. Su carpeta y repositorios no serán renombrados."@,
                ),
                in_language(language, "Save changes"@, "Guardar cambios"@),
            ),
            ModalKind::RemoveProject { .. } => self.are(
                in_language(
                    language,
                    "Remove project from Blackholes?"@,
                    "¿Eliminar proyecto de Blackholes?"@,
                ),
                in_language(
                    language,
                    "The project, its tasks, and its terminals will be removed only from this application. Folders and files on disk will not be deleted."@,
                    "El proyecto, sus tareas y sus terminales se quitarán únicamente de esta aplicación. Las carpetas y los archivos del disco no se eliminarán."@,
                ),
                in_language(language, "Remove project"@, "Eliminar proyecto"@),
            ),
            ModalKind::RemoveTask { .. } => self.are(
                in_language(
                    language,
                    "Delete task and worktrees?"@,
                    "¿Eliminar tarea y worktrees?"@,
                ),
                in_language(
                    language,
                    "All task terminals will be stopped. The worktree folder and any uncommitted changes inside it will be permanently deleted. Git branches are preserved."@,
                    "Se detendrán todas las terminales de la tarea. La carpeta del worktree y cualquier cambio sin confirmar dentro de ella se eliminarán permanentemente. Las ramas Git se conservarán."@,
                ),
                in_language(language, "Delete task"@, "Eliminar tarea"@),
            ),
            ModalKind::AddRepository { .. } => self.are(
                in_language(language, "Add repository"@, "Agregar repositorio"@),
                ""@,
                in_language(language, "Add repositories"@, "Agregar repositorios"@),
            ),
            ModalKind::RemoveRepository { .. } => if linked {
                self.are(
                    in_language(
                        language,
                        "Remove repository link?"@,
                        "¿Eliminar enlace al repositorio?"@,
                    ),
                    in_language(
                        language,
                        "Only the shortcut and this project's reference will be removed. The original repository, its files and pending changes stay untouched."@,
                        "Solo se eliminarán el acceso directo y la referencia de este proyecto. El repositorio original, sus archivos y cambios pendientes se conservan."@,
                    ),
                    in_language(language, "Remove link"@, "Eliminar enlace"@),
                )
            } else {
                self.are(
                    in_language(
                        language,
                        "Remove repository and its files?"@,
                        "¿Eliminar repositorio y sus archivos?"@,
                    ),
                    in_language(
                        language,
                        "The entire repository folder will be removed from this project, including Git history, .env files, dependencies and all uncommitted changes. It will be moved to Trash; emptying Trash permanently loses all of these data. Stop external processes using this folder first."@,
                        "Se quitará la carpeta completa del repositorio, incluidos el historial Git, archivos .env, dependencias y todos los cambios sin commit. Irá a la Papelera; al vaciarla perderás todos estos datos definitivamente. Detén primero los procesos externos que usen esta carpeta."@,
                    ),
                    in_language(language, "Move to Trash"@, "Mover a la Papelera"@),
                )
            },
            ModalKind::CreateProject { .. } => self.are(
                in_language(language, "Create project"@, "Crear proyecto"@),
                ""@,
                in_language(language, "Create"@, "Crear"@),
            ),
            ModalKind::CreateTask { .. } => self.are(
                in_language(
                    language,
                    "Create isolated task workspace"@,
                    "Crear espacio aislado para la tarea"@,
                ),
                ""@,
                in_language(language, "Create task"@, "Crear tarea"@),
            ),
            ModalKind::CloseTerminal { .. } => self.are(
                in_language(
                    language,
                    "Close this terminal agent?"@,
                    "¿Cerrar este agente de terminal?"@,
                ),
                in_language(
                    language,
                    "The terminal and its running agent will be stopped and removed from Blackholes' restored session. Repository files are not deleted. Conversation history saved by the provider remains available."@,
                    "Se detendrán la terminal y su agente, y dejarán de restaurarse al abrir Blackholes. No se eliminan archivos del repositorio. Se conserva el historial que haya guardado el proveedor."@,
                ),
                in_language(language, "Close agent"@, "Cerrar agente"@),
            ),
        }
    }

    /// The texts of a dialog in a language.
    pub fn of(kind: ModalKind, language: Language, linked: bool) -> (result: Self)
        ensures
            result.are_of(kind, language, linked),
    {
        match kind {
            ModalKind::EditProject { .. } => ModalTexts {
                title: tr(language, "Edit project", "Editar proyecto"),
                description: tr(
                    language,
                    "Change how this project appears in Blackholes. Its folder and repositories will not be renamed.",
                    "Cambia cómo aparece este proyecto en Blackholes. Su carpeta y repositorios no serán renombrados.",
                ),
                confirm_label: tr(language, "Save changes", "Guardar cambios"),
            },
            ModalKind::RemoveProject { .. } => ModalTexts {
                title: tr(
                    language,
                    "Remove project from Blackholes?",
                    "¿Eliminar proyecto de Blackholes?",
                ),
                description: tr(
                    language,
                    "The project, its tasks, and its terminals will be removed only from this application. Folders and files on disk will not be deleted.",
                    "El proyecto, sus tareas y sus terminales se quitarán únicamente de esta aplicación. Las carpetas y los archivos del disco no se eliminarán.",
                ),
                confirm_label: tr(language, "Remove project", "Eliminar proyecto"),
            },
            ModalKind::RemoveTask { .. } => ModalTexts {
                title: tr(language, "Delete task and worktrees?", "¿Eliminar tarea y worktrees?"),
                description: tr(
                    language,
                    "All task terminals will be stopped. The worktree folder and any uncommitted changes inside it will be permanently deleted. Git branches are preserved.",
                    "Se detendrán todas las terminales de la tarea. La carpeta del worktree y cualquier cambio sin confirmar dentro de ella se eliminarán permanentemente. Las ramas Git se conservarán.",
                ),
                confirm_label: tr(language, "Delete task", "Eliminar tarea"),
            },
            ModalKind::AddRepository { .. } => ModalTexts {
                title: tr(language, "Add repository", "Agregar repositorio"),
                description: "",
                confirm_label: tr(language, "Add repositories", "Agregar repositorios"),
            },
            ModalKind::RemoveRepository { .. } => {
                if linked {
                    ModalTexts {
                        title: tr(
                            language,
                            "Remove repository link?",
                            "¿Eliminar enlace al repositorio?",
                        ),
                        description: tr(
                            language,
                            "Only the shortcut and this project's reference will be removed. The original repository, its files and pending changes stay untouched.",
                            "Solo se eliminarán el acceso directo y la referencia de este proyecto. El repositorio original, sus archivos y cambios pendientes se conservan.",
                        ),
                        confirm_label: tr(language, "Remove link", "Eliminar enlace"),
                    }
                } else {
                    ModalTexts {
                        title: tr(
                            language,
                            "Remove repository and its files?",
                            "¿Eliminar repositorio y sus archivos?",
                        ),
                        description: tr(
                            language,
                            "The entire repository folder will be removed from this project, including Git history, .env files, dependencies and all uncommitted changes. It will be moved to Trash; emptying Trash permanently loses all of these data. Stop external processes using this folder first.",
                            "Se quitará la carpeta completa del repositorio, incluidos el historial Git, archivos .env, dependencias y todos los cambios sin commit. Irá a la Papelera; al vaciarla perderás todos estos datos definitivamente. Detén primero los procesos externos que usen esta carpeta.",
                        ),
                        confirm_label: tr(language, "Move to Trash", "Mover a la Papelera"),
                    }
                }
            },
            ModalKind::CreateProject { .. } => ModalTexts {
                title: tr(language, "Create project", "Crear proyecto"),
                description: "",
                confirm_label: tr(language, "Create", "Crear"),
            },
            ModalKind::CreateTask { .. } => ModalTexts {
                title: tr(
                    language,
                    "Create isolated task workspace",
                    "Crear espacio aislado para la tarea",
                ),
                description: "",
                confirm_label: tr(language, "Create task", "Crear tarea"),
            },
            ModalKind::CloseTerminal { .. } => ModalTexts {
                title: tr(
                    language,
                    "Close this terminal agent?",
                    "¿Cerrar este agente de terminal?",
                ),
                description: tr(
                    language,
                    "The terminal and its running agent will be stopped and removed from Blackholes' restored session. Repository files are not deleted. Conversation history saved by the provider remains available.",
                    "Se detendrán la terminal y su agente, y dejarán de restaurarse al abrir Blackholes. No se eliminan archivos del repositorio. Se conserva el historial que haya guardado el proveedor.",
                ),
                confirm_label: tr(language, "Close agent", "Cerrar agente"),
            },
        }
    }
}

/// What a dialog is about: a name, and where that is found.
pub struct ModalSubject {
    pub name: Seq<char>,
    pub context: Option<Seq<char>>,
    pub root: Option<Seq<char>>,
}

impl BlackholesApp {
    /// The repository of a removal is only linked.
    pub open spec fn removal_is_linked(&self) -> bool {
        self.modals.repository_removal matches Some(removal) && removal.plan.linked
    }

    /// What a dialog is about; nothing where its record is gone.
    pub open spec fn subject_of(&self, kind: ModalKind) -> Option<ModalSubject> {
        match kind {
            ModalKind::EditProject { workspace_id, .. } => match workspace_at(
                self.workspaces@,
                workspace_id,
            ) {
                Some(at) => Some(
                    ModalSubject { name: self.workspaces@[at].label@, context: None, root: None },
                ),
                None => None,
            },
            ModalKind::RemoveProject { workspace_id } => match workspace_at(
                self.workspaces@,
                workspace_id,
            ) {
                Some(at) => Some(
                    ModalSubject { name: self.workspaces@[at].label@, context: None, root: None },
                ),
                None => None,
            },
            ModalKind::RemoveTask { task_id } => match task_at(self.tasks@, task_id) {
                Some(at) => Some(
                    ModalSubject {
                        name: self.tasks@[at].title@,
                        context: Some(self.tasks@[at].worktree_root_path@),
                        root: None,
                    },
                ),
                None => None,
            },
            ModalKind::AddRepository { workspace_id, .. } => match workspace_at(
                self.workspaces@,
                workspace_id,
            ) {
                Some(at) => Some(
                    ModalSubject {
                        name: self.workspaces@[at].label@,
                        context: None,
                        root: text_of(self.workspaces@[at].root_path),
                    },
                ),
                None => None,
            },
            ModalKind::RemoveRepository { workspace_id, repository_id, .. } => match (
                workspace_at(self.workspaces@, workspace_id),
                self.modals.repository_removal,
            ) {
                (Some(at), Some(removal)) => match repository_at(
                    self.workspaces@[at].repositories@,
                    repository_id,
                ) {
                    Some(place) => Some(
                        ModalSubject {
                            name: self.workspaces@[at].repositories@[place].name@,
                            context: Some(removal.plan.path@),
                            root: None,
                        },
                    ),
                    None => None,
                },
                _ => None,
            },
            ModalKind::CreateProject { .. } => Some(
                ModalSubject { name: ""@, context: None, root: None },
            ),
            ModalKind::CreateTask { workspace_id, .. } => match workspace_at(
                self.workspaces@,
                workspace_id,
            ) {
                Some(_) => Some(ModalSubject { name: ""@, context: None, root: None }),
                None => None,
            },
            ModalKind::CloseTerminal { terminal_id } => match terminal_at(
                self.session.terminals@,
                terminal_id,
            ) {
                Some(at) => Some(
                    ModalSubject {
                        name: self.session.terminals@[at].label@,
                        context: Some(terminal_context(*self, self.session.terminals@[at])),
                        root: None,
                    },
                ),
                None => None,
            },
        }
    }

    /// The dialog is moved beside the sidebar, which settings hide.
    pub open spec fn shifts(&self, kind: ModalKind) -> bool {
        match kind {
            ModalKind::RemoveProject { .. } => true,
            ModalKind::AddRepository { .. } => true,
            ModalKind::RemoveRepository { .. } => true,
            _ => !self.surface.show_settings,
        }
    }

    /// The dialog for the looks of a project shows them, and the choices; no other
    /// dialog does.
    pub open spec fn shows_appearance(&self, kind: ModalKind, shown: Option<ModalAppearance>) -> bool {
        match (kind, shown) {
            (ModalKind::EditProject { workspace_id, .. }, Some(shown)) => {
                &&& workspace_at(self.workspaces@, workspace_id) matches Some(at)
                &&& shown.icon@ == self.workspaces@[at].icon@
                &&& shown.color == self.workspaces@[at].color
                &&& icons_offered(shown.icon_options@, self.session.language)
                &&& shown.color_options@ == project_color_choices()
            },
            (ModalKind::EditProject { .. }, None) => false,
            (_, shown) => shown is None,
        }
    }

    /// The dialog for a new task offers the repositories of its project; no other
    /// dialog offers any.
    pub open spec fn offers_repositories(&self, kind: ModalKind, offered: Seq<ModalRepository>) -> bool {
        match kind {
            ModalKind::CreateTask { workspace_id, .. } => {
                &&& workspace_at(self.workspaces@, workspace_id) matches Some(at)
                &&& repositories_offered(offered, self.workspaces@[at].repositories@)
            },
            _ => offered.len() == 0,
        }
    }

    /// The view shows the dialog.
    pub open spec fn shows_dialog(&self, kind: ModalKind, view: ModalView) -> bool {
        let texts = ModalTexts {
            title: view.title,
            description: view.description,
            confirm_label: view.confirm_label,
        };
        &&& texts.are_of(kind, self.session.language, self.removal_is_linked())
        &&& view.cancel_label@ == self.text("Cancel"@, "Cancelar"@)
        &&& self.subject_of(kind) == Some(
            ModalSubject {
                name: view.name@,
                context: text_of(view.context),
                root: text_of(view.root),
            },
        )
        &&& view.over_terminal == if kind is RemoveProject {
            None
        } else {
            Some(self.surface.show_terminal)
        }
        &&& view.shifted == self.shifts(kind)
        &&& self.shows_appearance(kind, view.appearance)
        &&& self.offers_repositories(kind, view.repositories@)
    }

    fn find_subject(&self, kind: ModalKind) -> (result: Option<
        (String, Option<String>, Option<String>),
    >)
        ensures
            match result {
                Some((name, context, root)) => self.subject_of(kind) == Some(
                    ModalSubject { name: name@, context: text_of(context), root: text_of(root) },
                ),
                None => self.subject_of(kind) is None,
            },
    {
        match kind {
            ModalKind::EditProject { workspace_id, .. } => match find_workspace(
                &self.workspaces,
                workspace_id,
            ) {
                Some(at) => Some((self.workspaces[at].label.clone(), None, None)),
                None => None,
            },
            ModalKind::RemoveProject { workspace_id } => match find_workspace(
                &self.workspaces,
                workspace_id,
            ) {
                Some(at) => Some((self.workspaces[at].label.clone(), None, None)),
                None => None,
            },
            ModalKind::RemoveTask { task_id } => match find_task(&self.tasks, task_id) {
                Some(at) => Some(
                    (
                        self.tasks[at].title.clone(),
                        Some(self.tasks[at].worktree_root_path.clone()),
                        None,
                    ),
                ),
                None => None,
            },
            ModalKind::AddRepository { workspace_id, .. } => match find_workspace(
                &self.workspaces,
                workspace_id,
            ) {
                Some(at) => Some(
                    (
                        self.workspaces[at].label.clone(),
                        None,
                        copy_text(&self.workspaces[at].root_path),
                    ),
                ),
                None => None,
            },
            ModalKind::RemoveRepository { workspace_id, repository_id, .. } => match find_workspace(
                &self.workspaces,
                workspace_id,
            ) {
                Some(at) => match &self.modals.repository_removal {
                    Some(removal) => match find_repository(
                        &self.workspaces[at].repositories,
                        repository_id,
                    ) {
                        Some(place) => Some(
                            (
                                self.workspaces[at].repositories[place].name.clone(),
                                Some(removal.plan.path.clone()),
                                None,
                            ),
                        ),
                        None => None,
                    },
                    None => None,
                },
                None => None,
            },
            ModalKind::CreateProject { .. } => Some(("".to_string(), None, None)),
            ModalKind::CreateTask { workspace_id, .. } => match find_workspace(
                &self.workspaces,
                workspace_id,
            ) {
                Some(_) => Some(("".to_string(), None, None)),
                None => None,
            },
            ModalKind::CloseTerminal { terminal_id } => match find_terminal(
                &self.session.terminals,
                terminal_id,
            ) {
                Some(at) => Some(
                    (
                        self.session.terminals[at].label.clone(),
                        Some(self.context_of_terminal(&self.session.terminals[at])),
                        None,
                    ),
                ),
                None => None,
            },
        }
    }

    /// What a dialog shows; nothing where its record is gone.
    pub fn describe_modal(&self, kind: ModalKind) -> (result: Option<ModalView>)
        ensures
            match result {
                Some(view) => self.shows_dialog(kind, view),
                None => self.subject_of(kind) is None,
            },
    {
        let (name, context, root) = match self.find_subject(kind) {
            Some(subject) => subject,
            None => {
                return None;
            },
        };
        let linked: bool = match &self.modals.repository_removal {
            Some(removal) => removal.plan.linked,
            None => false,
        };
        let texts = ModalTexts::of(kind, self.session.language, linked);
        let over_terminal: Option<bool> = match kind {
            ModalKind::RemoveProject { .. } => None,
            _ => Some(self.surface.show_terminal),
        };
        let shifted: bool = match kind {
            ModalKind::RemoveProject { .. } => true,
            ModalKind::AddRepository { .. } => true,
            ModalKind::RemoveRepository { .. } => true,
            _ => !self.surface.show_settings,
        };
        let appearance: Option<ModalAppearance> = match kind {
            ModalKind::EditProject { workspace_id, .. } => match find_workspace(
                &self.workspaces,
                workspace_id,
            ) {
                Some(at) => Some(
                    ModalAppearance {
                        icon: self.workspaces[at].icon.clone(),
                        color: self.workspaces[at].color,
                        icon_options: project_icon_options(self.session.language),
                        color_options: project_colors(),
                    },
                ),
                None => None,
            },
            _ => None,
        };
        let repositories: Vec<ModalRepository> = match kind {
            ModalKind::CreateTask { workspace_id, .. } => match find_workspace(
                &self.workspaces,
                workspace_id,
            ) {
                Some(at) => offer_repositories(&self.workspaces[at].repositories),
                None => Vec::new(),
            },
            _ => Vec::new(),
        };
        Some(
            ModalView {
                title: texts.title,
                name,
                context,
                description: texts.description,
                confirm_label: texts.confirm_label,
                cancel_label: self.tr("Cancel", "Cancelar"),
                root,
                over_terminal,
                shifted,
                appearance,
                repositories,
            },
        )
    }
}

} // verus!
