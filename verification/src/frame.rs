//! The window: what is drawn, and what is published as it is drawn.
use vstd::prelude::*;
use vstd::string::*;

use crate::app::{BlackholesApp, FileExplorerMode, LegacyNote, Status, Surface};
use crate::effects::Effect;
use crate::ids::Id;
use crate::labels::{
    icon_choices, icon_named, project_color_choices, project_colors, project_icon_kind,
    project_icon_options, AppIcon,
};
use crate::model::{
    find_terminal, in_language, terminal_at, tr, AgentKind, AppTheme, Language, WorkspaceColor,
};
use crate::text::{join2, same_text};

verus! {

// ---------------------------------------------------------------------------
// Before drawing
// ---------------------------------------------------------------------------
impl Surface {
    /// None of the pages is shown.
    pub open spec fn shows_no_page(self) -> bool {
        !self.show_settings && self.project_settings is None && !self.show_project_overview
            && !self.show_task_details && !self.show_terminal
    }
}

impl BlackholesApp {
    /// `after` is `before` with the file that was read in an editor, where files
    /// are what is shown.
    pub open spec fn readies_editor(before: Self, after: Self) -> bool {
        if before.surface.shows_no_page() && before.file_explorer.mode == FileExplorerMode::Files {
            Self::gives_editor(before, after)
        } else {
            after == before
        }
    }

    /// The note of a task from before its details were kept is known.
    pub open spec fn knows_note(&self, task_id: Id) -> bool {
        exists|i: int|
            0 <= i < self.task_legacy_notes@.len() && (
            #[trigger] self.task_legacy_notes@[i]).task_id == task_id
    }

    /// The task whose note is to be read before its details are shown.
    pub open spec fn unread_note(&self) -> Option<Id> {
        match self.task_selected() {
            Some(at) if self.surface.show_task_details && !self.knows_note(self.tasks@[at].id) => Some(
                self.tasks@[at].id,
            ),
            _ => None,
        }
    }

    /// Prepares the window: the updater is told whether it may act, and a file
    /// that was read gets its editor. Returns the task whose note is to be read.
    pub fn begin_frame(&mut self) -> (note: Option<Id>)
        ensures
            exists|guarded: BlackholesApp|
                {
                    &&& #[trigger] Self::requests(
                        *old(self),
                        guarded,
                        seq![old(self).guards_update()],
                    )
                    &&& Self::readies_editor(guarded, *final(self))
                },
            note == final(self).unread_note(),
    {
        let ghost before = *self;
        self.sync_update_guard();
        let ghost guarded = *self;
        assert(Self::requests(before, guarded, seq![before.guards_update()]));
        if !self.surface.show_settings && self.surface.project_settings.is_none()
            && !self.surface.show_project_overview && !self.surface.show_task_details
            && !self.surface.show_terminal && self.file_explorer.mode == FileExplorerMode::Files {
            let _ = self.ensure_file_editor();
        }
        assert(Self::readies_editor(guarded, *self));
        if !self.surface.show_task_details {
            return None;
        }
        match self.selected_task() {
            Some(at) => {
                let task_id: Id = self.tasks[at].id;
                if self.has_note(task_id) {
                    None
                } else {
                    Some(task_id)
                }
            },
            None => None,
        }
    }

    fn has_note(&self, task_id: Id) -> (result: bool)
        ensures
            result == self.knows_note(task_id),
    {
        let mut index: usize = 0;
        while index < self.task_legacy_notes.len()
            invariant
                index <= self.task_legacy_notes@.len(),
                forall|i: int|
                    0 <= i < index ==> (#[trigger] self.task_legacy_notes@[i]).task_id != task_id,
            decreases self.task_legacy_notes@.len() - index,
        {
            if self.task_legacy_notes[index].task_id == task_id {
                return true;
            }
            index += 1;
        }
        false
    }

    /// `after` is `before` with the note of a task known.
    pub open spec fn learns_note(before: Self, after: Self, task_id: Id, result: Result<String, String>) -> bool {
        &&& after.task_legacy_notes@.len() == before.task_legacy_notes@.len() + 1
        &&& after.task_legacy_notes@.drop_last() == before.task_legacy_notes@
        &&& after.task_legacy_notes@.last().task_id == task_id
        &&& after.task_legacy_notes@.last().text@ == match result {
            Ok(text) => text@,
            Err(_) => ""@,
        }
        &&& match result {
            Ok(_) => after.status == before.status,
            Err(error) => after.status matches Some(status) && status.error && status.message@
                == "Could not read previous task notes: "@ + error@,
        }
        &&& after == (BlackholesApp {
            task_legacy_notes: after.task_legacy_notes,
            status: after.status,
            ..before
        })
    }

    /// The note of a task was read, or could not be.
    pub fn take_legacy_note(&mut self, task_id: Id, result: Result<String, String>)
        ensures
            Self::learns_note(*old(self), *final(self), task_id, result),
    {
        let ghost before = *self;
        match result {
            Ok(text) => self.task_legacy_notes.push(LegacyNote { task_id, text }),
            Err(error) => {
                self.task_legacy_notes.push(LegacyNote { task_id, text: "".to_string() });
                let message = join2("Could not read previous task notes: ", error.as_str());
                self.status = Some(Status { message, error: true });
            },
        }
        assert(self.task_legacy_notes@.drop_last() =~= before.task_legacy_notes@);
    }
}

// ---------------------------------------------------------------------------
// The window
// ---------------------------------------------------------------------------
/// The colours of the window.
#[derive(Clone, Copy, Debug, PartialEq, Eq, Structural)]
pub struct WindowColors {
    pub background: u32,
    pub foreground: u32,
    pub border: u32,
}

pub open spec fn window_colors(theme: AppTheme) -> WindowColors {
    match theme {
        AppTheme::Dark => WindowColors {
            background: 0x0c0e12,
            foreground: 0xe5e9f0,
            border: 0x252a33,
        },
        AppTheme::Light => WindowColors {
            background: 0xf6f7fa,
            foreground: 0x18212f,
            border: 0xd9dee8,
        },
    }
}

/// A message over the corner of the window.
#[derive(Debug)]
pub struct Notice {
    pub text: String,
    pub background: u32,
    /// Whether a click takes it away.
    pub clickable: bool,
}

/// What fills the window beside the sidebar.
#[derive(Clone, Copy, Debug, PartialEq, Eq, Structural)]
pub enum FrameBody {
    /// The terminal in front.
    Terminal { terminal_id: Id },
    /// The central surface.
    Surface,
    /// The logo, where there is no central surface.
    Logo,
}

/// The button that looks for updates.
#[derive(Debug)]
pub struct UpdateButton {
    pub label: &'static str,
    pub highlighted: bool,
    pub tooltip: String,
}

/// What is drawn.
#[derive(Debug)]
pub struct Frame {
    /// Whether the central surface is visible, where there is one.
    pub workspace_visible: Option<bool>,
    /// Whether the tree of projects is visible, where there is one.
    pub navigation_visible: Option<bool>,
    pub colors: WindowColors,
    pub body: FrameBody,
    /// Whether the central surface lies over the terminals.
    pub overlay: bool,
    pub notice: Option<Notice>,
    pub shows_sidebar: bool,
    pub update: UpdateButton,
}

impl BlackholesApp {
    /// Something is asked of the user over the terminals.
    pub open spec fn asks_over_terminal(&self) -> bool {
        self.surface.show_terminal && (self.modals.project_request is Some
            || self.modals.appearance_request is Some || self.modals.task_request is Some
            || self.modals.task_removal is Some || self.modals.agent_removal is Some
            || self.quick_open is Some)
    }

    /// The central surface is visible.
    pub open spec fn surface_visible(&self, dialog_open: bool) -> bool {
        (!self.surface.show_terminal || self.asks_over_terminal() || self.quick_open is Some)
            && !dialog_open
    }

    /// What fills the window.
    pub open spec fn frame_body(&self) -> FrameBody {
        match self.terminal_selected() {
            Some(terminal_id) if self.surface.show_terminal => FrameBody::Terminal { terminal_id },
            _ => if self.has_workspace_webview {
                FrameBody::Surface
            } else {
                FrameBody::Logo
            },
        }
    }

    /// The message over the corner of the window: what is going on, else the status.
    pub open spec fn shows_notice(&self, notice: Option<Notice>) -> bool {
        match self.busy {
            Some(text) => notice matches Some(shown) && shown.text@ == text@ && shown.background
                == 0x2d6cdf && !shown.clickable,
            None => match self.status {
                Some(status) => notice matches Some(shown) && shown.text@ == status.message@
                    && shown.background == (if status.error {
                    0x7a263au32
                } else {
                    0x245b46u32
                }) && shown.clickable,
                None => notice is None,
            },
        }
    }

    /// The label of the button that looks for updates.
    pub open spec fn update_label(&self) -> Seq<char> {
        if self.update_state.restart {
            self.text("Restart to update"@, "Reiniciar para actualizar"@)
        } else if self.update_state.busy {
            self.text("Updating…"@, "Actualizando…"@)
        } else if self.update_state.available@.len() > 0 {
            self.text("Update"@, "Actualizar"@)
        } else {
            self.text("Check for updates"@, "Buscar actualizaciones"@)
        }
    }

    pub open spec fn shows_update(&self, button: UpdateButton) -> bool {
        &&& button.label@ == self.update_label()
        &&& button.highlighted == (self.update_state.available@.len() > 0
            || self.update_state.restart)
        &&& button.tooltip@ == if self.update_state.available@.len() == 0 {
            self.text(
                "Check GitHub Releases for a new version"@,
                "Buscar una nueva versión en GitHub Releases"@,
            )
        } else {
            "Blackholes "@ + self.update_state.available@
        }
    }

    /// The frame shows the application.
    pub open spec fn shows_frame(&self, dialog_open: bool, frame: Frame) -> bool {
        &&& frame.workspace_visible == if self.has_workspace_webview {
            Some(self.surface_visible(dialog_open))
        } else {
            None
        }
        &&& frame.navigation_visible == if self.has_navigation_webview {
            Some(!self.surface.show_settings && !dialog_open)
        } else {
            None
        }
        &&& frame.colors == window_colors(self.session.theme)
        &&& frame.body == self.frame_body()
        &&& frame.overlay == (self.asks_over_terminal() && self.has_workspace_webview)
        &&& self.shows_notice(frame.notice)
        &&& frame.shows_sidebar == !self.surface.show_settings
        &&& self.shows_update(frame.update)
    }

    /// What is published as the window is drawn.
    pub open spec fn frame_requests(&self, workspace_shown: bool) -> Seq<Effect> {
        self.publishes_surface() + (if !self.surface.show_terminal {
            seq![Effect::PublishStatus]
        } else {
            seq![]
        }) + (if self.has_workspace_webview && self.asks_over_terminal() && !workspace_shown {
            seq![Effect::FocusWorkspace]
        } else {
            seq![]
        }) + (if self.has_navigation_webview {
            seq![Effect::PublishNavigation]
        } else {
            seq![]
        })
    }

    fn notice(&self) -> (result: Option<Notice>)
        ensures
            self.shows_notice(result),
    {
        if let Some(text) = &self.busy {
            return Some(Notice { text: text.clone(), background: 0x2d6cdf, clickable: false });
        }
        match &self.status {
            Some(status) => Some(
                Notice {
                    text: status.message.clone(),
                    background: if status.error {
                        0x7a263a
                    } else {
                        0x245b46
                    },
                    clickable: true,
                },
            ),
            None => None,
        }
    }

    fn update_button(&self) -> (result: UpdateButton)
        ensures
            self.shows_update(result),
    {
        let offered: bool = self.update_state.available.as_str().unicode_len() > 0;
        let label = if self.update_state.restart {
            self.tr("Restart to update", "Reiniciar para actualizar")
        } else if self.update_state.busy {
            self.tr("Updating…", "Actualizando…")
        } else if offered {
            self.tr("Update", "Actualizar")
        } else {
            self.tr("Check for updates", "Buscar actualizaciones")
        };
        let tooltip = if offered {
            join2("Blackholes ", self.update_state.available.as_str())
        } else {
            self.tr(
                "Check GitHub Releases for a new version",
                "Buscar una nueva versión en GitHub Releases",
            ).to_string()
        };
        UpdateButton { label, highlighted: offered || self.update_state.restart, tooltip }
    }

    /// Draws the window. `dialog_open` is whether a dialog of the host lies over
    /// it, `workspace_shown` whether the central surface was visible until now.
    pub fn render(&mut self, dialog_open: bool, workspace_shown: bool) -> (frame: Frame)
        ensures
            Self::requests(*old(self), *final(self), old(self).frame_requests(workspace_shown)),
            old(self).shows_frame(dialog_open, frame),
    {
        let ghost before = *self;
        let asks: bool = self.surface.show_terminal && (self.modals.project_request.is_some()
            || self.modals.appearance_request.is_some() || self.modals.task_request.is_some()
            || self.modals.task_removal.is_some() || self.modals.agent_removal.is_some()
            || self.quick_open.is_some());
        let visible: bool = (!self.surface.show_terminal || asks || self.quick_open.is_some())
            && !dialog_open;
        let mut body = if self.has_workspace_webview {
            FrameBody::Surface
        } else {
            FrameBody::Logo
        };
        if self.surface.show_terminal {
            if let Some(terminal_id) = self.selected_terminal_id() {
                body = FrameBody::Terminal { terminal_id };
            }
        }
        let frame = Frame {
            workspace_visible: if self.has_workspace_webview {
                Some(visible)
            } else {
                None
            },
            navigation_visible: if self.has_navigation_webview {
                Some(!self.surface.show_settings && !dialog_open)
            } else {
                None
            },
            colors: match self.session.theme {
                AppTheme::Dark => WindowColors {
                    background: 0x0c0e12,
                    foreground: 0xe5e9f0,
                    border: 0x252a33,
                },
                AppTheme::Light => WindowColors {
                    background: 0xf6f7fa,
                    foreground: 0x18212f,
                    border: 0xd9dee8,
                },
            },
            body,
            overlay: asks && self.has_workspace_webview,
            notice: self.notice(),
            shows_sidebar: !self.surface.show_settings,
            update: self.update_button(),
        };
        self.hydrate_active_workspace_surface();
        if !self.surface.show_terminal {
            self.emit(Effect::PublishStatus);
        }
        if self.has_workspace_webview && asks && !workspace_shown {
            self.emit(Effect::FocusWorkspace);
        }
        if self.has_navigation_webview {
            self.emit(Effect::PublishNavigation);
        }
        assert(self.effects@ =~= before.effects@ + before.frame_requests(workspace_shown));
        frame
    }

    /// A click on the status message takes it away.
    pub fn click_status(&mut self)
        ensures
            Self::requests(
                BlackholesApp { status: None, ..*old(self) },
                *final(self),
                seq![Effect::Redraw],
            ),
    {
        self.status = None;
        self.notify();
    }
}

// ---------------------------------------------------------------------------
// The terminal in front
// ---------------------------------------------------------------------------
/// The picture of an agent.
#[derive(Clone, Copy, Debug, PartialEq, Eq, Structural)]
pub enum AgentGlyph {
    SquareTerminal,
    ClaudeCode,
    Codex,
    Code2,
    OpenCode,
    /// A picture with colours of its own.
    Antigravity,
}

/// The picture of an agent, and its colour where it has none of its own.
pub open spec fn agent_picture(agent: AgentKind, theme: AppTheme) -> (AgentGlyph, Option<u32>) {
    match agent {
        AgentKind::Shell => (AgentGlyph::SquareTerminal, Some(0xb6bdca)),
        AgentKind::Claude => (AgentGlyph::ClaudeCode, Some(0xd97757)),
        AgentKind::Codex => (
            AgentGlyph::Codex,
            Some(
                if theme == AppTheme::Light {
                    0x202622
                } else {
                    0xe7ecea
                },
            ),
        ),
        AgentKind::Gemini => (AgentGlyph::Code2, Some(0x5b8def)),
        AgentKind::OpenCode => (
            AgentGlyph::OpenCode,
            Some(
                if theme == AppTheme::Light {
                    0x211e1e
                } else {
                    0xf1ecec
                },
            ),
        ),
        AgentKind::Antigravity => (AgentGlyph::Antigravity, None),
    }
}

/// The picture of an agent.
pub fn agent_icon_themed(agent: AgentKind, theme: AppTheme) -> (result: (AgentGlyph, Option<u32>))
    ensures
        result == agent_picture(agent, theme),
{
    match agent {
        AgentKind::Shell => (AgentGlyph::SquareTerminal, Some(0xb6bdca)),
        AgentKind::Claude => (AgentGlyph::ClaudeCode, Some(0xd97757)),
        AgentKind::Codex => (
            AgentGlyph::Codex,
            Some(
                if theme == AppTheme::Light {
                    0x202622
                } else {
                    0xe7ecea
                },
            ),
        ),
        AgentKind::Gemini => (AgentGlyph::Code2, Some(0x5b8def)),
        AgentKind::OpenCode => (
            AgentGlyph::OpenCode,
            Some(
                if theme == AppTheme::Light {
                    0x211e1e
                } else {
                    0xf1ecec
                },
            ),
        ),
        AgentKind::Antigravity => (AgentGlyph::Antigravity, None),
    }
}

/// The panel of a terminal.
#[derive(Debug)]
pub struct TerminalPanel {
    pub terminal_id: Id,
    pub label: String,
    pub agent: Option<AgentKind>,
    pub border: u32,
    pub header: u32,
    pub muted: u32,
    /// What stands in place of the screen of a terminal that does not run yet.
    pub waiting: Option<&'static str>,
}

impl BlackholesApp {
    /// The panel shows a terminal.
    pub open spec fn shows_panel(&self, terminal_id: Id, active: bool, panel: TerminalPanel) -> bool {
        let dark = self.session.theme == AppTheme::Dark;
        &&& panel.terminal_id == terminal_id
        &&& match terminal_at(self.session.terminals@, terminal_id) {
            Some(at) => panel.label@ == self.session.terminals@[at].label@ && panel.agent == Some(
                self.session.terminals@[at].agent,
            ),
            None => panel.label@ == self.text("Closed terminal"@, "Terminal cerrada"@)
                && panel.agent is None,
        }
        &&& panel.border == (if active {
            0x5c7cfau32
        } else if dark {
            0x252a33u32
        } else {
            0xd9dee8u32
        })
        &&& panel.header == (if dark {
            0x15181eu32
        } else {
            0xf0f2f6u32
        })
        &&& panel.muted == (if dark {
            0x9ba3b4u32
        } else {
            0x657084u32
        })
        &&& if self.running@.contains(terminal_id) {
            panel.waiting is None
        } else {
            panel.waiting matches Some(text) && text@ == self.text(
                "Starting terminal…"@,
                "Iniciando terminal…"@,
            )
        }
    }

    /// The panel of a terminal; `active` where it is the one in front.
    pub fn render_terminal_panel(&self, terminal_id: Id, active_terminal_id: Id) -> (result:
        TerminalPanel)
        ensures
            self.shows_panel(terminal_id, terminal_id == active_terminal_id, result),
    {
        let dark: bool = self.session.theme == AppTheme::Dark;
        let (label, agent): (String, Option<AgentKind>) = match find_terminal(
            &self.session.terminals,
            terminal_id,
        ) {
            Some(at) => (
                self.session.terminals[at].label.clone(),
                Some(self.session.terminals[at].agent),
            ),
            None => (self.tr("Closed terminal", "Terminal cerrada").to_string(), None),
        };
        TerminalPanel {
            terminal_id,
            label,
            agent,
            border: if terminal_id == active_terminal_id {
                0x5c7cfa
            } else if dark {
                0x252a33
            } else {
                0xd9dee8
            },
            header: if dark {
                0x15181e
            } else {
                0xf0f2f6
            },
            muted: if dark {
                0x9ba3b4
            } else {
                0x657084
            },
            waiting: if crate::ids::contains_id(&self.running, terminal_id) {
                None
            } else {
                Some(self.tr("Starting terminal…", "Iniciando terminal…"))
            },
        }
    }

    /// The panel of the terminal in front; none where there is no such terminal.
    pub fn render_dock(&self) -> (result: Option<TerminalPanel>)
        ensures
            match self.terminal_selected() {
                Some(terminal_id) => result matches Some(panel) && self.shows_panel(
                    terminal_id,
                    true,
                    panel,
                ),
                None => result is None,
            },
    {
        match self.selected_terminal_id() {
            Some(terminal_id) => Some(self.render_terminal_panel(terminal_id, terminal_id)),
            None => None,
        }
    }

    /// What is told where there is no central surface.
    pub fn empty_state_text(&self) -> (result: &'static str)
        ensures
            result@ == self.text(
                "The workspace WebView could not be loaded."@,
                "No se pudo cargar el WebView del orquestador."@,
            ),
    {
        self.tr(
            "The workspace WebView could not be loaded.",
            "No se pudo cargar el WebView del orquestador.",
        )
    }
}

// ---------------------------------------------------------------------------
// The appearance of a project
// ---------------------------------------------------------------------------
/// What the user chooses in the dialog for the appearance of a project.
#[derive(Debug)]
pub struct ProjectAppearanceEditor {
    pub name: String,
    pub icon: String,
    pub color: WorkspaceColor,
    pub language: Language,
}

/// An icon on offer.
#[derive(Debug)]
pub struct IconChoice {
    pub element_id: String,
    pub value: &'static str,
    pub icon: AppIcon,
    pub selected: bool,
}

/// A colour on offer.
#[derive(Debug)]
pub struct ColorChoice {
    pub color: WorkspaceColor,
    pub selected: bool,
}

/// The dialog for the appearance of a project.
#[derive(Debug)]
pub struct AppearanceView {
    pub name_label: &'static str,
    pub icon_label: &'static str,
    pub color_label: &'static str,
    pub selected_icon: AppIcon,
    pub selected_icon_label: &'static str,
    pub icons: Vec<IconChoice>,
    pub colors: Vec<ColorChoice>,
}

/// The label of an icon by its name, among the choices from a place on.
pub open spec fn icon_label_from(choices: Seq<(Seq<char>, Seq<char>)>, icon: Seq<char>, from: int) -> Seq<char>
    decreases choices.len() - from,
{
    if from < 0 || from >= choices.len() {
        "Layers"@
    } else if choices[from].0 == icon {
        choices[from].1
    } else {
        icon_label_from(choices, icon, from + 1)
    }
}

impl ProjectAppearanceEditor {
    /// The view shows what is chosen.
    pub open spec fn shows(&self, view: AppearanceView) -> bool {
        let language = self.language;
        let choices = icon_choices(language);
        &&& view.name_label@ == in_language(language, "Visible name"@, "Nombre visible"@)
        &&& view.icon_label@ == in_language(language, "Project icon"@, "Icono del proyecto"@)
        &&& view.color_label@ == in_language(language, "Project color"@, "Color del proyecto"@)
        &&& view.selected_icon == icon_named(self.icon@)
        &&& view.selected_icon_label@ == icon_label_from(choices, self.icon@, 0)
        &&& view.icons@.len() == choices.len()
        &&& forall|i: int|
            0 <= i < view.icons@.len() ==> {
                &&& (#[trigger] view.icons@[i]).value@ == choices[i].0
                &&& view.icons@[i].element_id@ == "edit-project-icon-option-"@ + choices[i].0
                &&& view.icons@[i].icon == icon_named(choices[i].0)
                &&& view.icons@[i].selected == (choices[i].0 == self.icon@)
            }
        &&& view.colors@.len() == project_color_choices().len()
        &&& forall|i: int|
            0 <= i < view.colors@.len() ==> {
                &&& (#[trigger] view.colors@[i]).color == project_color_choices()[i]
                &&& view.colors@[i].selected == (project_color_choices()[i] == self.color)
            }
    }

    /// The dialog as the choices stand.
    pub fn render(&self) -> (view: AppearanceView)
        ensures
            self.shows(view),
    {
        let language = self.language;
        let options = project_icon_options(language);
        let ghost choices = icon_choices(language);
        let mut label: &'static str = "Layers";
        let mut found: bool = false;
        let mut icons: Vec<IconChoice> = Vec::new();
        let mut index: usize = 0;
        while index < options.len()
            invariant
                choices == icon_choices(language),
                options@.len() == choices.len(),
                forall|i: int|
                    0 <= i < options@.len() ==> {
                        &&& ((#[trigger] options@[i]).value@, options@[i].label@) == choices[i]
                        &&& options@[i].icon == icon_named(options@[i].value@)
                    },
                index <= options@.len(),
                icons@.len() == index,
                forall|i: int|
                    0 <= i < index ==> {
                        &&& (#[trigger] icons@[i]).value@ == choices[i].0
                        &&& icons@[i].element_id@ == "edit-project-icon-option-"@ + choices[i].0
                        &&& icons@[i].icon == icon_named(choices[i].0)
                        &&& icons@[i].selected == (choices[i].0 == self.icon@)
                    },
                found ==> label@ == icon_label_from(choices, self.icon@, 0),
                !found ==> label@ == "Layers"@ && icon_label_from(choices, self.icon@, 0)
                    == icon_label_from(choices, self.icon@, index as int),
            decreases options@.len() - index,
        {
            assert((options@[index as int].value@, options@[index as int].label@)
                == choices[index as int]);
            let selected: bool = same_text(options[index].value, self.icon.as_str());
            if selected && !found {
                label = options[index].label;
                found = true;
            }
            icons.push(
                IconChoice {
                    element_id: join2("edit-project-icon-option-", options[index].value),
                    value: options[index].value,
                    icon: options[index].icon,
                    selected,
                },
            );
            index += 1;
        }
        let offered = project_colors();
        let mut colors: Vec<ColorChoice> = Vec::new();
        let mut place: usize = 0;
        while place < offered.len()
            invariant
                offered@ == project_color_choices(),
                place <= offered@.len(),
                colors@.len() == place,
                forall|i: int|
                    0 <= i < place ==> {
                        &&& (#[trigger] colors@[i]).color == project_color_choices()[i]
                        &&& colors@[i].selected == (project_color_choices()[i] == self.color)
                    },
            decreases offered@.len() - place,
        {
            colors.push(ColorChoice { color: offered[place], selected: offered[place] == self.color });
            place += 1;
        }
        AppearanceView {
            name_label: tr(language, "Visible name", "Nombre visible"),
            icon_label: tr(language, "Project icon", "Icono del proyecto"),
            color_label: tr(language, "Project color", "Color del proyecto"),
            selected_icon: project_icon_kind(self.icon.as_str()),
            selected_icon_label: label,
            icons,
            colors,
        }
    }

    pub fn choose_icon(&mut self, icon: String)
        ensures
            *final(self) == (ProjectAppearanceEditor { icon, ..*old(self) }),
    {
        self.icon = icon;
    }

    pub fn choose_color(&mut self, color: WorkspaceColor)
        ensures
            *final(self) == (ProjectAppearanceEditor { color, ..*old(self) }),
    {
        self.color = color;
    }
}

// ---------------------------------------------------------------------------
// Terminals
// ---------------------------------------------------------------------------
/// The colours of a terminal, each as `0xrrggbb`.
#[derive(Clone, Copy, Debug, PartialEq, Eq, Structural)]
pub struct TerminalPalette {
    pub background: u32,
    pub foreground: u32,
    pub cursor: u32,
    pub black: u32,
    pub red: u32,
    pub green: u32,
    pub yellow: u32,
    pub blue: u32,
    pub magenta: u32,
    pub cyan: u32,
    pub white: u32,
    pub bright_black: u32,
    pub bright_red: u32,
    pub bright_green: u32,
    pub bright_yellow: u32,
    pub bright_blue: u32,
    pub bright_magenta: u32,
    pub bright_cyan: u32,
    pub bright_white: u32,
}

pub open spec fn terminal_colors(theme: AppTheme) -> TerminalPalette {
    match theme {
        AppTheme::Dark => TerminalPalette {
            background: 0x0c0e12,
            foreground: 0xd8deea,
            cursor: 0xe5e9f0,
            black: 0x16181d,
            red: 0xff7b72,
            green: 0x56d364,
            yellow: 0xe3b341,
            blue: 0x79c0ff,
            magenta: 0xd2a8ff,
            cyan: 0x56d4dd,
            white: 0xc9d1d9,
            bright_black: 0x6e7681,
            bright_red: 0xffa198,
            bright_green: 0x7ee787,
            bright_yellow: 0xf2cc60,
            bright_blue: 0xa5d6ff,
            bright_magenta: 0xe2c5ff,
            bright_cyan: 0x80e8ee,
            bright_white: 0xf0f6fc,
        },
        AppTheme::Light => TerminalPalette {
            background: 0xf8f9fb,
            foreground: 0x242b38,
            cursor: 0x18212f,
            black: 0x242b38,
            red: 0xc73e4e,
            green: 0x1f7a4f,
            yellow: 0x9a6810,
            blue: 0x2e63b8,
            magenta: 0x754ba7,
            cyan: 0x1e767b,
            white: 0xdfe3ea,
            bright_black: 0x788291,
            bright_red: 0xdd4f5f,
            bright_green: 0x2f9162,
            bright_yellow: 0xb37d1b,
            bright_blue: 0x3f75cb,
            bright_magenta: 0x8b5dbb,
            bright_cyan: 0x2a8b90,
            bright_white: 0xffffff,
        },
    }
}

/// How a terminal is set up.
#[derive(Debug)]
pub struct TerminalSetup {
    pub font_family: &'static str,
    pub columns: usize,
    pub rows: usize,
    pub scrollback: usize,
    pub colors: TerminalPalette,
}

/// How a terminal is set up under a theme.
pub fn terminal_config(theme: AppTheme) -> (result: TerminalSetup)
    ensures
        result.font_family@ == "Menlo"@,
        result.columns == 120,
        result.rows == 30,
        result.scrollback == 20_000,
        result.colors == terminal_colors(theme),
{
    let colors = match theme {
        AppTheme::Dark => TerminalPalette {
            background: 0x0c0e12,
            foreground: 0xd8deea,
            cursor: 0xe5e9f0,
            black: 0x16181d,
            red: 0xff7b72,
            green: 0x56d364,
            yellow: 0xe3b341,
            blue: 0x79c0ff,
            magenta: 0xd2a8ff,
            cyan: 0x56d4dd,
            white: 0xc9d1d9,
            bright_black: 0x6e7681,
            bright_red: 0xffa198,
            bright_green: 0x7ee787,
            bright_yellow: 0xf2cc60,
            bright_blue: 0xa5d6ff,
            bright_magenta: 0xe2c5ff,
            bright_cyan: 0x80e8ee,
            bright_white: 0xf0f6fc,
        },
        AppTheme::Light => TerminalPalette {
            background: 0xf8f9fb,
            foreground: 0x242b38,
            cursor: 0x18212f,
            black: 0x242b38,
            red: 0xc73e4e,
            green: 0x1f7a4f,
            yellow: 0x9a6810,
            blue: 0x2e63b8,
            magenta: 0x754ba7,
            cyan: 0x1e767b,
            white: 0xdfe3ea,
            bright_black: 0x788291,
            bright_red: 0xdd4f5f,
            bright_green: 0x2f9162,
            bright_yellow: 0xb37d1b,
            bright_blue: 0x3f75cb,
            bright_magenta: 0x8b5dbb,
            bright_cyan: 0x2a8b90,
            bright_white: 0xffffff,
        },
    };
    TerminalSetup { font_family: "Menlo", columns: 120, rows: 30, scrollback: 20_000, colors }
}

/// The size of a terminal as its process is told it, which takes 16 bits.
pub fn terminal_extent(cells: usize) -> (result: u16)
    ensures
        result == if cells <= u16::MAX {
            cells as int
        } else {
            u16::MAX as int
        },
{
    if cells <= u16::MAX as usize {
        cells as u16
    } else {
        u16::MAX
    }
}

/// Whether the shell of a terminal is the process in front. `leader` is the group
/// in front, `shell` the process of the shell where it is known.
pub fn terminal_shell_owns_foreground(shell: Option<u32>, leader: Option<i32>) -> (result: bool)
    ensures
        result == (shell matches Some(process) && leader matches Some(group) && process as int
            == group),
{
    match (shell, leader) {
        (Some(process), Some(group)) => {
            if process <= i32::MAX as u32 {
                process as i32 == group
            } else {
                false
            }
        },
        _ => false,
    }
}

// ---------------------------------------------------------------------------
// Laws
// ---------------------------------------------------------------------------
/// A note that was read, or could not be, is not read again, and what is known of
/// other notes stays; a note that could not be read is reported.
pub proof fn law_note_read_once(
    before: BlackholesApp,
    after: BlackholesApp,
    task_id: Id,
    result: Result<String, String>,
    other: Id,
)
    requires
        BlackholesApp::learns_note(before, after, task_id, result),
    ensures
        after.unread_note() != Some(task_id),
        other != task_id ==> (after.knows_note(other) <==> before.knows_note(other)),
        result is Err <==> (result matches Err(error) && (after.status matches Some(status)
            && status.error && status.message@ == "Could not read previous task notes: "@ + error@)),
        after.tasks == before.tasks,
{
    let notes = after.task_legacy_notes@;
    let known = before.task_legacy_notes@;
    assert(notes[notes.len() - 1].task_id == task_id);
    assert(forall|i: int| 0 <= i < known.len() ==> notes.drop_last()[i] == #[trigger] notes[i]);
    if before.knows_note(other) {
        let at = choose|i: int| 0 <= i < known.len() && (#[trigger] known[i]).task_id == other;
        assert(notes.drop_last()[at].task_id == other);
        assert(notes[at].task_id == other);
    }
    if other != task_id && after.knows_note(other) {
        let at = choose|i: int| 0 <= i < notes.len() && (#[trigger] notes[i]).task_id == other;
        assert(notes.drop_last()[at] == notes[at]);
        assert(known[at].task_id == other);
    }
}

/// A task whose details are not shown has no note read, and only the selected
/// task has.
pub proof fn law_note_of_selected(app: BlackholesApp)
    ensures
        app.unread_note() matches Some(id) ==> app.surface.show_task_details
            && app.session.selected_task_id == Some(id),
{
    if let Some(id) = app.session.selected_task_id {
        let wanted = crate::model::task_is(id);
        crate::search::lemma_first_where(app.tasks@, wanted, 0);
    }
}

/// What is going on stands before what was reported, and cannot be clicked away;
/// what was reported can. With neither, no message is shown.
pub proof fn law_notice_shown(app: BlackholesApp, dialog_open: bool, frame: Frame)
    requires
        app.shows_frame(dialog_open, frame),
    ensures
        app.busy matches Some(text) ==> (frame.notice matches Some(notice) && notice.text@ == text@
            && !notice.clickable),
        app.busy is None ==> (app.status matches Some(status) ==> (frame.notice matches Some(notice)
            && notice.text@ == status.message@ && notice.clickable)),
        app.busy is None && app.status is None ==> frame.notice is None,
{
}

/// A terminal fills the window only where the terminals are shown; the central
/// surface is hidden behind a dialog of the system and behind a terminal, unless
/// something is asked over the terminal. The sidebar and the navigation give way
/// to the settings.
pub proof fn law_window_filled(app: BlackholesApp, dialog_open: bool, frame: Frame)
    requires
        app.shows_frame(dialog_open, frame),
    ensures
        frame.body is Terminal ==> app.surface.show_terminal,
        !app.surface.show_terminal && app.has_workspace_webview ==> frame.body is Surface
            && frame.workspace_visible == Some(!dialog_open),
        dialog_open ==> frame.workspace_visible != Some(true) && frame.navigation_visible != Some(
            true,
        ),
        app.has_workspace_webview && app.surface.show_terminal && !dialog_open ==> (
        frame.workspace_visible == Some(true) <==> app.quick_open is Some
            || app.modals.project_request is Some || app.modals.appearance_request is Some
            || app.modals.task_request is Some || app.modals.task_removal is Some
            || app.modals.agent_removal is Some),
        frame.overlay ==> app.surface.show_terminal && app.has_workspace_webview,
        frame.shows_sidebar == !app.surface.show_settings,
        !app.has_workspace_webview ==> frame.workspace_visible is None,
{
}

/// The button for updates stands out exactly where an update is there or waits
/// for the restart, and names the version that is there.
pub proof fn law_update_offered(app: BlackholesApp, button: UpdateButton)
    requires
        app.shows_update(button),
    ensures
        button.highlighted <==> app.update_state.restart || app.update_state.available@.len() > 0,
        app.update_state.available@.len() > 0 ==> button.tooltip@ == "Blackholes "@
            + app.update_state.available@,
        app.session.language == Language::English ==> {
            &&& app.update_state.restart ==> button.label@ == "Restart to update"@
            &&& !app.update_state.restart && app.update_state.busy ==> button.label@ == "Updating…"@
            &&& !app.update_state.restart && !app.update_state.busy
                && app.update_state.available@.len() == 0 ==> button.label@ == "Check for updates"@
        },
{
}

/// The panel of a terminal bears the label and the agent of that terminal, and
/// says that it waits exactly while the terminal does not run.
pub proof fn law_panel_shown(
    app: BlackholesApp,
    terminal_id: Id,
    active: bool,
    panel: TerminalPanel,
    at: int,
)
    requires
        app.shows_panel(terminal_id, active, panel),
        0 <= at < app.session.terminals@.len(),
        app.session.terminals@[at].id == terminal_id,
        forall|i: int|
            0 <= i < at ==> (#[trigger] app.session.terminals@[i]).id != terminal_id,
    ensures
        panel.terminal_id == terminal_id,
        panel.label@ == app.session.terminals@[at].label@,
        panel.agent == Some(app.session.terminals@[at].agent),
        panel.waiting is None <==> app.running@.contains(terminal_id),
{
    let wanted = crate::model::terminal_is(terminal_id);
    crate::search::lemma_first_where(app.session.terminals@, wanted, 0);
    assert(wanted(app.session.terminals@[at]));
}

/// No two agents are drawn alike, and the theme changes no glyph.
pub proof fn law_agents_drawn(one: AgentKind, other: AgentKind, theme: AppTheme, second: AppTheme)
    ensures
        one != other ==> agent_picture(one, theme).0 != agent_picture(other, theme).0,
        agent_picture(one, theme).0 == agent_picture(one, second).0,
{
}

} // verus!
