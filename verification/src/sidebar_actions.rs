//! What the rows of the sidebar, their buttons and their menus do.
use vstd::prelude::*;
use vstd::string::*;

use crate::app::BlackholesApp;
use crate::commands::NavigationCommand;
use crate::effects::Effect;
use crate::ids::{id_text, uuid_text, Id};
use crate::model::AgentKind;
use crate::sidebar::{row_is_current, SidebarRow};
use crate::text::{join2, join4};

verus! {

/// What a click in the sidebar asks for.
#[derive(Debug)]
pub enum SidebarAction {
    Command { command: NavigationCommand },
    /// Select a project, and expand or collapse it.
    OpenProject { workspace_id: Id },
    /// Edit the instructions of a project.
    OpenInstructions { workspace_id: Id },
    /// Select a repository of a task, which is seen by that.
    OpenTaskRepository { workspace_id: Id, task_id: Id, repository_id: Id },
}

/// An item of a menu.
#[derive(Debug)]
pub struct SidebarMenuItem {
    pub label: String,
    pub action: SidebarAction,
}

/// A button of a row; one without an action of its own opens a menu.
#[derive(Debug)]
pub struct SidebarButton {
    pub element_id: String,
    pub tooltip: String,
    pub action: Option<SidebarAction>,
    pub items: Vec<SidebarMenuItem>,
}

/// An item of a menu, with its text as characters.
pub struct ItemModel {
    pub label: Seq<char>,
    pub action: SidebarAction,
}

/// A button, with its texts as characters.
pub struct ButtonModel {
    pub element_id: Seq<char>,
    pub tooltip: Seq<char>,
    pub action: Option<SidebarAction>,
    pub items: Seq<ItemModel>,
}

impl View for SidebarMenuItem {
    type V = ItemModel;

    open spec fn view(&self) -> ItemModel {
        ItemModel { label: self.label@, action: self.action }
    }
}

pub open spec fn item_models(items: Seq<SidebarMenuItem>) -> Seq<ItemModel> {
    items.map_values(|item: SidebarMenuItem| item@)
}

impl View for SidebarButton {
    type V = ButtonModel;

    open spec fn view(&self) -> ButtonModel {
        ButtonModel {
            element_id: self.element_id@,
            tooltip: self.tooltip@,
            action: self.action,
            items: item_models(self.items@),
        }
    }
}

pub open spec fn button_models(buttons: Seq<SidebarButton>) -> Seq<ButtonModel> {
    buttons.map_values(|button: SidebarButton| button@)
}

pub open spec fn commanding(command: NavigationCommand) -> SidebarAction {
    SidebarAction::Command { command }
}

// ---------------------------------------------------------------------------
// Rows
// ---------------------------------------------------------------------------
/// What a click on a row asks for. The heading over the tasks does nothing.
pub open spec fn row_action(app: BlackholesApp, row: SidebarRow) -> Option<SidebarAction> {
    match row {
        SidebarRow::Project { workspace } => Some(
            SidebarAction::OpenProject { workspace_id: app.workspaces@[workspace as int].id },
        ),
        SidebarRow::Terminal { terminal, .. } => Some(
            commanding(
                NavigationCommand::FocusTerminal {
                    terminal_id: app.session.terminals@[terminal as int].id,
                },
            ),
        ),
        SidebarRow::Repository { workspace, repository } => {
            let project = app.workspaces@[workspace as int];
            Some(
                commanding(
                    NavigationCommand::SelectRepository {
                        workspace_id: project.id,
                        task: None,
                        repository_id: project.repositories@[repository as int].id,
                    },
                ),
            )
        },
        SidebarRow::TasksHeading { .. } => None,
        SidebarRow::Task { task, .. } => Some(
            commanding(NavigationCommand::ToggleTask { task_id: app.tasks@[task as int].id }),
        ),
        SidebarRow::TaskRepository { workspace, task, repository } => {
            let record = app.tasks@[task as int];
            Some(
                SidebarAction::OpenTaskRepository {
                    workspace_id: app.workspaces@[workspace as int].id,
                    task_id: record.id,
                    repository_id: record.repositories@[repository as int].repository_id,
                },
            )
        },
    }
}

/// By what a row is told from the others.
pub open spec fn row_element(app: BlackholesApp, row: SidebarRow) -> Option<Seq<char>> {
    match row {
        SidebarRow::Project { workspace } => Some(
            "workspace-"@ + uuid_text(app.workspaces@[workspace as int].id),
        ),
        SidebarRow::Terminal { terminal, .. } => Some(
            "sidebar-terminal-"@ + uuid_text(app.session.terminals@[terminal as int].id),
        ),
        SidebarRow::Repository { workspace, repository } => Some(
            "repository-"@ + uuid_text(
                app.workspaces@[workspace as int].repositories@[repository as int].id,
            ),
        ),
        SidebarRow::TasksHeading { .. } => None,
        SidebarRow::Task { task, .. } => Some("task-"@ + uuid_text(app.tasks@[task as int].id)),
        SidebarRow::TaskRepository { task, repository, .. } => {
            let record = app.tasks@[task as int];
            Some(
                "task-repository-"@ + uuid_text(record.id) + "-"@ + uuid_text(
                    record.repositories@[repository as int].repository_id,
                ),
            )
        },
    }
}

impl BlackholesApp {
    /// What a click on a row asks for.
    pub fn click_sidebar_row(&self, row: SidebarRow) -> (result: Option<SidebarAction>)
        requires
            row_is_current(*self, row),
        ensures
            result == row_action(*self, row),
    {
        match row {
            SidebarRow::Project { workspace } => Some(
                SidebarAction::OpenProject { workspace_id: self.workspaces[workspace].id },
            ),
            SidebarRow::Terminal { terminal, .. } => {
                let terminal_id: Id = self.session.terminals[terminal].id;
                Some(
                    SidebarAction::Command {
                        command: NavigationCommand::FocusTerminal { terminal_id },
                    },
                )
            },
            SidebarRow::Repository { workspace, repository } => {
                let project = &self.workspaces[workspace];
                Some(
                    SidebarAction::Command {
                        command: NavigationCommand::SelectRepository {
                            workspace_id: project.id,
                            task: None,
                            repository_id: project.repositories[repository].id,
                        },
                    },
                )
            },
            SidebarRow::TasksHeading { .. } => None,
            SidebarRow::Task { task, .. } => {
                let task_id: Id = self.tasks[task].id;
                Some(
                    SidebarAction::Command { command: NavigationCommand::ToggleTask { task_id } },
                )
            },
            SidebarRow::TaskRepository { workspace, task, repository } => {
                let record = &self.tasks[task];
                Some(
                    SidebarAction::OpenTaskRepository {
                        workspace_id: self.workspaces[workspace].id,
                        task_id: record.id,
                        repository_id: record.repositories[repository].repository_id,
                    },
                )
            },
        }
    }

    /// By what a row is told from the others.
    pub fn sidebar_row_element(&self, row: SidebarRow) -> (result: Option<String>)
        requires
            row_is_current(*self, row),
        ensures
            match result {
                Some(element) => row_element(*self, row) == Some(element@),
                None => row_element(*self, row) is None,
            },
    {
        match row {
            SidebarRow::Project { workspace } => {
                Some(join2("workspace-", id_text(self.workspaces[workspace].id).as_str()))
            },
            SidebarRow::Terminal { terminal, .. } => {
                let id = id_text(self.session.terminals[terminal].id);
                Some(join2("sidebar-terminal-", id.as_str()))
            },
            SidebarRow::Repository { workspace, repository } => {
                let id = id_text(self.workspaces[workspace].repositories[repository].id);
                Some(join2("repository-", id.as_str()))
            },
            SidebarRow::TasksHeading { .. } => None,
            SidebarRow::Task { task, .. } => {
                Some(join2("task-", id_text(self.tasks[task].id).as_str()))
            },
            SidebarRow::TaskRepository { task, repository, .. } => {
                let record = &self.tasks[task];
                let owner = id_text(record.id);
                let id = id_text(record.repositories[repository].repository_id);
                Some(join4("task-repository-", owner.as_str(), "-", id.as_str()))
            },
        }
    }
}

// ---------------------------------------------------------------------------
// Buttons and menus
// ---------------------------------------------------------------------------
/// A button that acts at once.
pub open spec fn plain_button(
    element_id: Seq<char>,
    tooltip: Seq<char>,
    command: NavigationCommand,
) -> ButtonModel {
    ButtonModel {
        element_id,
        tooltip,
        action: Some(commanding(command)),
        items: Seq::<ItemModel>::empty(),
    }
}

/// A button with a menu.
pub open spec fn menu_button(
    element_id: Seq<char>,
    tooltip: Seq<char>,
    items: Seq<ItemModel>,
) -> ButtonModel {
    ButtonModel { element_id, tooltip, action: None::<SidebarAction>, items }
}

pub open spec fn item(label: Seq<char>, action: SidebarAction) -> ItemModel {
    ItemModel { label, action }
}

/// The menu that starts a terminal or an agent for a target.
pub open spec fn launch_button(
    app: BlackholesApp,
    element_id: Seq<char>,
    workspace_id: Id,
    task: Option<Id>,
    repository: Option<Id>,
) -> ButtonModel {
    let start = |agent: AgentKind|
        commanding(NavigationCommand::NewTerminal { workspace_id, task, repository, agent });
    menu_button(
        element_id,
        app.text("Add"@, "Agregar"@),
        seq![
            item(app.text("Blank Terminal"@, "Terminal vacía"@), start(AgentKind::Shell)),
            item(app.agent_labels.claude@, start(AgentKind::Claude)),
            item("Codex"@, start(AgentKind::Codex)),
        ],
    )
}

/// The buttons of a project: look for repositories, add to it, change it.
pub open spec fn project_buttons(app: BlackholesApp, workspace_id: Id) -> Seq<ButtonModel> {
    let id = uuid_text(workspace_id);
    seq![
        plain_button(
            "refresh-project-repositories-"@ + id,
            app.text("Find new repositories"@, "Buscar repositorios nuevos"@),
            NavigationCommand::RefreshProject { workspace_id },
        ),
        menu_button(
            "project-add-menu-"@ + id,
            app.text("Add to project"@, "Agregar al proyecto"@),
            seq![
                item(
                    app.text("New terminal"@, "Nueva terminal"@),
                    commanding(
                        NavigationCommand::NewTerminal {
                            workspace_id,
                            task: None,
                            repository: None,
                            agent: AgentKind::Shell,
                        },
                    ),
                ),
                item(
                    app.text("Add task"@, "Agregar tarea"@),
                    commanding(NavigationCommand::NewTask { workspace_id }),
                ),
            ],
        ),
        menu_button(
            "project-menu-"@ + id,
            app.text("Project options"@, "Opciones del proyecto"@),
            seq![
                item(
                    app.text("Edit project"@, "Editar proyecto"@),
                    commanding(NavigationCommand::EditProject { workspace_id }),
                ),
                item(
                    app.text("Project settings"@, "Configuración del proyecto"@),
                    SidebarAction::OpenInstructions { workspace_id },
                ),
                item(
                    app.text("Remove project"@, "Eliminar proyecto"@),
                    commanding(NavigationCommand::RemoveProject { workspace_id }),
                ),
            ],
        ),
    ]
}

/// The menu that changes a task.
pub open spec fn task_menu(app: BlackholesApp, task_id: Id) -> ButtonModel {
    menu_button(
        "task-menu-"@ + uuid_text(task_id),
        app.text("Task options"@, "Opciones de la tarea"@),
        seq![
            item(
                app.text("Edit task"@, "Editar tarea"@),
                commanding(NavigationCommand::EditTask { task_id }),
            ),
            item(
                app.text("Delete task"@, "Eliminar tarea"@),
                commanding(NavigationCommand::RemoveTask { task_id }),
            ),
        ],
    )
}

/// The buttons of a row.
pub open spec fn row_buttons(app: BlackholesApp, row: SidebarRow) -> Seq<ButtonModel> {
    match row {
        SidebarRow::Project { workspace } => project_buttons(
            app,
            app.workspaces@[workspace as int].id,
        ),
        SidebarRow::Terminal { terminal, .. } => {
            let terminal_id = app.session.terminals@[terminal as int].id;
            seq![
                plain_button(
                    "close-sidebar-terminal-"@ + uuid_text(terminal_id),
                    ""@,
                    NavigationCommand::CloseTerminal { terminal_id },
                ),
            ]
        },
        SidebarRow::Repository { workspace, repository } => {
            let project = app.workspaces@[workspace as int];
            let repository_id = project.repositories@[repository as int].id;
            seq![
                launch_button(
                    app,
                    "repository-add-terminal-"@ + uuid_text(repository_id),
                    project.id,
                    None,
                    Some(repository_id),
                ),
            ]
        },
        SidebarRow::TasksHeading { .. } => seq![],
        SidebarRow::Task { task, .. } => {
            let record = app.tasks@[task as int];
            seq![
                launch_button(
                    app,
                    "task-add-terminal-"@ + uuid_text(record.id),
                    record.workspace_id,
                    Some(record.id),
                    None,
                ),
                task_menu(app, record.id),
            ]
        },
        SidebarRow::TaskRepository { workspace, task, repository } => {
            let record = app.tasks@[task as int];
            let repository_id = record.repositories@[repository as int].repository_id;
            seq![
                launch_button(
                    app,
                    "task-repository-add-terminal-"@ + uuid_text(record.id) + "-"@ + uuid_text(
                        repository_id,
                    ),
                    app.workspaces@[workspace as int].id,
                    Some(record.id),
                    Some(repository_id),
                ),
            ]
        },
    }
}

fn make_item(label: &str, action: SidebarAction) -> (result: SidebarMenuItem)
    ensures
        result@ == item(label@, action),
{
    SidebarMenuItem { label: label.to_string(), action }
}

fn command_item(label: &str, command: NavigationCommand) -> (result: SidebarMenuItem)
    ensures
        result@ == item(label@, commanding(command)),
{
    SidebarMenuItem { label: label.to_string(), action: SidebarAction::Command { command } }
}

fn make_button(element_id: String, tooltip: &str, command: NavigationCommand) -> (result:
    SidebarButton)
    ensures
        result@ == plain_button(element_id@, tooltip@, command),
{
    let result = SidebarButton {
        element_id,
        tooltip: tooltip.to_string(),
        action: Some(SidebarAction::Command { command }),
        items: Vec::new(),
    };
    assert(item_models(result.items@) =~= Seq::<ItemModel>::empty());
    result
}

fn make_menu(element_id: String, tooltip: &str, items: Vec<SidebarMenuItem>) -> (result:
    SidebarButton)
    ensures
        result@ == menu_button(element_id@, tooltip@, item_models(items@)),
{
    SidebarButton { element_id, tooltip: tooltip.to_string(), action: None, items }
}

impl BlackholesApp {
    fn make_launch_menu(
        &self,
        element_id: String,
        workspace_id: Id,
        task: Option<Id>,
        repository: Option<Id>,
    ) -> (result: SidebarButton)
        ensures
            result@ == launch_button(*self, element_id@, workspace_id, task, repository),
    {
        let ghost wanted = launch_button(*self, element_id@, workspace_id, task, repository);
        let shell = NavigationCommand::NewTerminal {
            workspace_id,
            task,
            repository,
            agent: AgentKind::Shell,
        };
        let claude = NavigationCommand::NewTerminal {
            workspace_id,
            task,
            repository,
            agent: AgentKind::Claude,
        };
        let codex = NavigationCommand::NewTerminal {
            workspace_id,
            task,
            repository,
            agent: AgentKind::Codex,
        };
        let items = vec![
            command_item(self.tr("Blank Terminal", "Terminal vacía"), shell),
            command_item(self.agent_labels.claude.as_str(), claude),
            command_item("Codex", codex),
        ];
        assert(item_models(items@) =~= wanted.items);
        make_menu(element_id, self.tr("Add", "Agregar"), items)
    }

    fn make_project_buttons(&self, workspace_id: Id) -> (result: Vec<SidebarButton>)
        ensures
            button_models(result@) == project_buttons(*self, workspace_id),
    {
        let ghost wanted = project_buttons(*self, workspace_id);
        let id = id_text(workspace_id);
        let refresh = make_button(
            join2("refresh-project-repositories-", id.as_str()),
            self.tr("Find new repositories", "Buscar repositorios nuevos"),
            NavigationCommand::RefreshProject { workspace_id },
        );
        let terminal = NavigationCommand::NewTerminal {
            workspace_id,
            task: None,
            repository: None,
            agent: AgentKind::Shell,
        };
        let additions = vec![
            command_item(self.tr("New terminal", "Nueva terminal"), terminal),
            command_item(
                self.tr("Add task", "Agregar tarea"),
                NavigationCommand::NewTask { workspace_id },
            ),
        ];
        assert(item_models(additions@) =~= wanted[1].items);
        let addition = make_menu(
            join2("project-add-menu-", id.as_str()),
            self.tr("Add to project", "Agregar al proyecto"),
            additions,
        );
        let changes = vec![
            command_item(
                self.tr("Edit project", "Editar proyecto"),
                NavigationCommand::EditProject { workspace_id },
            ),
            make_item(
                self.tr("Project settings", "Configuración del proyecto"),
                SidebarAction::OpenInstructions { workspace_id },
            ),
            command_item(
                self.tr("Remove project", "Eliminar proyecto"),
                NavigationCommand::RemoveProject { workspace_id },
            ),
        ];
        assert(item_models(changes@) =~= wanted[2].items);
        let options = make_menu(
            join2("project-menu-", id.as_str()),
            self.tr("Project options", "Opciones del proyecto"),
            changes,
        );
        let result = vec![refresh, addition, options];
        assert(button_models(result@) =~= wanted);
        result
    }

    fn make_task_menu(&self, task_id: Id) -> (result: SidebarButton)
        ensures
            result@ == task_menu(*self, task_id),
    {
        let ghost wanted = task_menu(*self, task_id);
        let items = vec![
            command_item(
                self.tr("Edit task", "Editar tarea"),
                NavigationCommand::EditTask { task_id },
            ),
            command_item(
                self.tr("Delete task", "Eliminar tarea"),
                NavigationCommand::RemoveTask { task_id },
            ),
        ];
        assert(item_models(items@) =~= wanted.items);
        make_menu(
            join2("task-menu-", id_text(task_id).as_str()),
            self.tr("Task options", "Opciones de la tarea"),
            items,
        )
    }

    /// The buttons of a row.
    pub fn sidebar_row_buttons(&self, row: SidebarRow) -> (result: Vec<SidebarButton>)
        requires
            row_is_current(*self, row),
        ensures
            button_models(result@) == row_buttons(*self, row),
    {
        let result = match row {
            SidebarRow::Project { workspace } => {
                self.make_project_buttons(self.workspaces[workspace].id)
            },
            SidebarRow::Terminal { terminal, .. } => {
                let terminal_id: Id = self.session.terminals[terminal].id;
                vec![
                    make_button(
                        join2("close-sidebar-terminal-", id_text(terminal_id).as_str()),
                        "",
                        NavigationCommand::CloseTerminal { terminal_id },
                    ),
                ]
            },
            SidebarRow::Repository { workspace, repository } => {
                let project = &self.workspaces[workspace];
                let repository_id: Id = project.repositories[repository].id;
                vec![
                    self.make_launch_menu(
                        join2("repository-add-terminal-", id_text(repository_id).as_str()),
                        project.id,
                        None,
                        Some(repository_id),
                    ),
                ]
            },
            SidebarRow::TasksHeading { .. } => Vec::new(),
            SidebarRow::Task { task, .. } => {
                let record = &self.tasks[task];
                vec![
                    self.make_launch_menu(
                        join2("task-add-terminal-", id_text(record.id).as_str()),
                        record.workspace_id,
                        Some(record.id),
                        None,
                    ),
                    self.make_task_menu(record.id),
                ]
            },
            SidebarRow::TaskRepository { workspace, task, repository } => {
                let record = &self.tasks[task];
                let repository_id: Id = record.repositories[repository].repository_id;
                let owner = id_text(record.id);
                let id = id_text(repository_id);
                vec![
                    self.make_launch_menu(
                        join4("task-repository-add-terminal-", owner.as_str(), "-", id.as_str()),
                        self.workspaces[workspace].id,
                        Some(record.id),
                        Some(repository_id),
                    ),
                ]
            },
        };
        assert(button_models(result@) =~= row_buttons(*self, row));
        result
    }
}

// ---------------------------------------------------------------------------
// Around the rows
// ---------------------------------------------------------------------------
/// What the sidebar shows around its rows.
#[derive(Debug)]
pub struct SidebarFrame {
    pub projects_label: &'static str,
    pub new_task_label: &'static str,
    pub settings_label: &'static str,
    pub settings_background: u32,
    pub settings_color: u32,
}

impl BlackholesApp {
    /// What the sidebar shows around its rows. The settings are marked while they
    /// are shown.
    pub fn sidebar_frame(&self) -> (result: SidebarFrame)
        ensures
            result.projects_label@ == self.text("Projects"@, "Proyectos"@),
            result.new_task_label@ == self.text("New"@, "Nuevo"@),
            result.settings_label@ == self.text("Settings"@, "Configuración"@),
            result.settings_background == if self.surface.show_settings {
                0x29364fu32
            } else {
                0x111318
            },
            result.settings_color == if self.surface.show_settings {
                0xdde8ffu32
            } else {
                0xb6bdca
            },
    {
        let shown: bool = self.surface.show_settings;
        SidebarFrame {
            projects_label: self.tr("Projects", "Proyectos"),
            new_task_label: self.tr("New", "Nuevo"),
            settings_label: self.tr("Settings", "Configuración"),
            settings_background: if shown {
                0x29364f
            } else {
                0x111318
            },
            settings_color: if shown {
                0xdde8ff
            } else {
                0xb6bdca
            },
        }
    }
}

// ---------------------------------------------------------------------------
// Actions
// ---------------------------------------------------------------------------
impl BlackholesApp {
    /// `after` is `before` with a project selected, and expanded or collapsed.
    pub open spec fn opens_project_row(before: Self, after: Self, workspace_id: Id) -> bool {
        exists|chosen: BlackholesApp| #[trigger]
            Self::selects_surface(before, chosen, workspace_id, None, None, false)
                && Self::toggles_workspace(chosen, after, workspace_id)
    }

    /// `after` is `before` with a task seen and one of its repositories selected.
    pub open spec fn opens_task_repository(
        before: Self,
        after: Self,
        workspace_id: Id,
        task_id: Id,
        repository_id: Id,
    ) -> bool {
        exists|seen: BlackholesApp| #[trigger]
            Self::sees_task(before, seen, task_id) && Self::selects_repository(
                seen,
                after,
                workspace_id,
                Some(task_id),
                repository_id,
            )
    }

    /// `after` is `before` with an action of the sidebar carried out.
    pub open spec fn acts(before: Self, after: Self, action: SidebarAction) -> bool {
        match action {
            SidebarAction::Command { command } => Self::navigates(before, after, command),
            SidebarAction::OpenProject { workspace_id } => Self::opens_project_row(
                before,
                after,
                workspace_id,
            ),
            SidebarAction::OpenInstructions { workspace_id } => Self::asks_if_known(
                before,
                after,
                workspace_id,
                Effect::PrepareInstructions { workspace_id, shared: false },
            ),
            SidebarAction::OpenTaskRepository { workspace_id, task_id, repository_id } => {
                Self::opens_task_repository(before, after, workspace_id, task_id, repository_id)
            },
        }
    }

    /// Carries out an action of the sidebar.
    pub fn handle_sidebar_action(&mut self, action: SidebarAction)
        ensures
            Self::acts(*old(self), *final(self), action),
    {
        let ghost before = *self;
        match action {
            SidebarAction::Command { command } => self.handle_navigation_command(command),
            SidebarAction::OpenProject { workspace_id } => {
                self.select_target(workspace_id, None, None);
                assert(Self::selects_surface(before, *self, workspace_id, None, None, false));
                self.toggle_workspace_expanded(workspace_id);
            },
            SidebarAction::OpenInstructions { workspace_id } => self.ask_if_known(
                workspace_id,
                Effect::PrepareInstructions { workspace_id, shared: false },
            ),
            SidebarAction::OpenTaskRepository { workspace_id, task_id, repository_id } => {
                self.mark_task_seen(task_id);
                assert(Self::sees_task(before, *self, task_id));
                self.select_repository_target(workspace_id, Some(task_id), repository_id);
            },
        }
    }
}

/// The close button in the row of a terminal with an agent closes nothing by itself:
/// the terminals, the docks and what runs stay as they are.
pub proof fn law_close_button_asks(
    before: BlackholesApp,
    after: BlackholesApp,
    terminal: usize,
    indentation: u32,
)
    requires
        row_is_current(before, SidebarRow::Terminal { terminal, indentation }),
        ({
            let button = row_buttons(before, SidebarRow::Terminal { terminal, indentation })[0];
            button.action matches Some(action) && BlackholesApp::acts(before, after, action)
        }),
        before.session.terminals@[terminal as int].agent != AgentKind::Shell,
        crate::model::terminal_at(
            before.session.terminals@,
            before.session.terminals@[terminal as int].id,
        ) == Some(terminal as int),
    ensures
        after.session == before.session,
        after.running == before.running,
{
}

/// A click on a row leads to what the row shows: a project is selected and turned over,
/// a terminal is brought to the front, and a task is seen and turned over.
pub proof fn law_row_clicked(before: BlackholesApp, after: BlackholesApp, row: SidebarRow)
    requires
        row_is_current(before, row),
        row_action(before, row) matches Some(action) && BlackholesApp::acts(before, after, action),
        before.session.expanded_workspace_ids@.no_duplicates(),
        before.session.expanded_task_ids@.no_duplicates(),
    ensures
        match row {
            SidebarRow::Project { workspace } => {
                let id = before.workspaces@[workspace as int].id;
                &&& after.session.selected_workspace_id == Some(id)
                &&& after.session.selected_task_id is None
                &&& after.session.selected_repository_id is None
            },
            SidebarRow::Task { task, .. } => {
                let id = before.tasks@[task as int].id;
                &&& !after.session.unseen_task_ids@.contains(id)
                &&& after.session.expanded_task_ids@.contains(id)
                    <==> !before.session.expanded_task_ids@.contains(id)
            },
            SidebarRow::TaskRepository { workspace, task, repository } => {
                &&& after.session.selected_task_id == Some(before.tasks@[task as int].id)
                &&& after.session.selected_repository_id == Some(
                    before.tasks@[task as int].repositories@[repository as int].repository_id,
                )
            },
            SidebarRow::Repository { workspace, repository } => {
                &&& after.session.selected_workspace_id == Some(
                    before.workspaces@[workspace as int].id,
                )
                &&& after.session.selected_task_id is None
                &&& after.session.selected_repository_id == Some(
                    before.workspaces@[workspace as int].repositories@[repository as int].id,
                )
            },
            _ => true,
        },
{
    match row {
        SidebarRow::Project { workspace } => {
            let id = before.workspaces@[workspace as int].id;
            let chosen = choose|chosen: BlackholesApp| #[trigger]
                BlackholesApp::selects_surface(before, chosen, id, None, None, false)
                    && BlackholesApp::toggles_workspace(chosen, after, id);
            crate::selection::law_target_selected(before, chosen, id, None, None, false);
        },
        SidebarRow::Task { task, .. } => {
            let id = before.tasks@[task as int].id;
            let seen = choose|seen: BlackholesApp| #[trigger]
                BlackholesApp::sees_task(before, seen, id) && BlackholesApp::toggles_task(
                    seen,
                    after,
                    id,
                );
            crate::toasts::law_seen_task(before, seen, id);
            crate::ids::law_toggle(before.session.expanded_task_ids@, id, id);
        },
        SidebarRow::TaskRepository { workspace, task, repository } => {
            let project = before.workspaces@[workspace as int].id;
            let id = before.tasks@[task as int].id;
            let wanted = before.tasks@[task as int].repositories@[repository as int].repository_id;
            let seen = choose|seen: BlackholesApp| #[trigger]
                BlackholesApp::sees_task(before, seen, id) && BlackholesApp::selects_repository(
                    seen,
                    after,
                    project,
                    Some(id),
                    wanted,
                );
            lemma_repository_selected(seen, after, project, Some(id), wanted);
        },
        SidebarRow::Repository { workspace, repository } => {
            let project = before.workspaces@[workspace as int];
            lemma_repository_selected(
                before,
                after,
                project.id,
                None,
                project.repositories@[repository as int].id,
            );
        },
        _ => {},
    }
}

proof fn lemma_repository_selected(
    before: BlackholesApp,
    after: BlackholesApp,
    workspace_id: Id,
    task_id: Option<Id>,
    repository_id: Id,
)
    requires
        BlackholesApp::selects_repository(before, after, workspace_id, task_id, repository_id),
    ensures
        after.session.selected_workspace_id == Some(workspace_id),
        after.session.selected_task_id == task_id,
        after.session.selected_repository_id == Some(repository_id),
{
    let chosen = choose|chosen: BlackholesApp| #[trigger]
        BlackholesApp::selects_surface(
            before,
            chosen,
            workspace_id,
            task_id,
            Some(repository_id),
            true,
        ) && BlackholesApp::requests(
            chosen,
            after,
            chosen.publishes_workbench() + chosen.inspects_selection(),
        );
    crate::selection::law_target_selected(
        before,
        chosen,
        workspace_id,
        task_id,
        Some(repository_id),
        true,
    );
}

} // verus!
