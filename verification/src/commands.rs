//! Commands from the tree of projects, the central surface and the keyboard.
use vstd::prelude::*;
use vstd::string::*;
use vstd::utf8::encode_utf8;

use crate::app::{
    AppSession, BlackholesApp, FileExplorerMode, FileExplorerState, QuickOpenEntries,
    QuickOpenState, QuickOpenTarget,
};
use crate::effects::{Effect, SurfaceTarget};
use crate::ids::{parse_id, uuid_of, Id};
use crate::model::{
    contains_text, find_task, find_workspace, task_at, workspace_at, AgentKind, TerminalDescriptor,
};
use crate::text::{lowercase, lowered, same_text, strip_prefix, views};

verus! {

// ---------------------------------------------------------------------------
// The palette
// ---------------------------------------------------------------------------
impl QuickOpenTarget {
    /// A copy of the target.
    pub fn duplicate(&self) -> (result: QuickOpenTarget)
        ensures
            result == *self,
    {
        match self {
            QuickOpenTarget::Terminal { terminal_id } => QuickOpenTarget::Terminal {
                terminal_id: *terminal_id,
            },
            QuickOpenTarget::Project { workspace_id } => QuickOpenTarget::Project {
                workspace_id: *workspace_id,
            },
            QuickOpenTarget::Task { workspace_id, task_id } => QuickOpenTarget::Task {
                workspace_id: *workspace_id,
                task_id: *task_id,
            },
            QuickOpenTarget::File { root, root_label, path } => QuickOpenTarget::File {
                root: root.clone(),
                root_label: root_label.clone(),
                path: path.clone(),
            },
        }
    }
}

impl BlackholesApp {
    /// `after` is `before` with a terminal focused and revealed in the tree.
    pub open spec fn jumps_to_terminal(before: Self, after: Self, terminal_id: Id) -> bool {
        exists|focused: BlackholesApp| #[trigger]
            Self::focuses_terminal(before, focused, terminal_id) && Self::requests(
                focused,
                after,
                seq![Effect::PublishNavigation, Effect::RevealAgent { terminal_id }],
            )
    }

    /// `after` is `before` with the details of a task shown and its row in view.
    pub open spec fn jumps_to_task(before: Self, after: Self, workspace_id: Id, task_id: Id) -> bool {
        exists|shown: BlackholesApp| #[trigger]
            Self::shows_task(before, shown, workspace_id, task_id) && Self::requests(
                shown,
                after,
                seq![Effect::ScrollToTask { task_id }],
            )
    }

    /// The state with the explorer set to files.
    pub open spec fn listing_files(self) -> Self {
        BlackholesApp {
            file_explorer: FileExplorerState {
                mode: FileExplorerMode::Files,
                ..self.file_explorer
            },
            ..self
        }
    }

    /// `after` is `before` with a file opened beside the files of its repository.
    pub open spec fn jumps_to_file(before: Self, after: Self, root: String, label: Seq<char>, path: String) -> bool {
        exists|listed: BlackholesApp| #[trigger]
            Self::opens_explorer(before.listing_files(), listed, root, label) && Self::opens_file(
                listed,
                after,
                path,
            )
    }

    /// `after` is `before` at what a result of the palette leads to.
    pub open spec fn jumps(before: Self, after: Self, target: QuickOpenTarget) -> bool {
        match target {
            QuickOpenTarget::Terminal { terminal_id } => Self::jumps_to_terminal(
                before,
                after,
                terminal_id,
            ),
            QuickOpenTarget::Project { workspace_id } => Self::shows_project(
                before,
                after,
                workspace_id,
            ),
            QuickOpenTarget::Task { workspace_id, task_id } => Self::jumps_to_task(
                before,
                after,
                workspace_id,
                task_id,
            ),
            QuickOpenTarget::File { root, root_label, path } => Self::jumps_to_file(
                before,
                after,
                root,
                root_label@,
                path,
            ),
        }
    }

    /// `after` is `before` with the palette closed, at what a result leads to.
    pub open spec fn activates_target(before: Self, after: Self, target: QuickOpenTarget) -> bool {
        exists|closed: BlackholesApp| #[trigger]
            Self::closes_palette(before, closed) && Self::jumps(closed, after, target)
    }

    /// Closes the palette and goes to what a result leads to.
    pub fn activate_quick_open_target(&mut self, target: QuickOpenTarget)
        ensures
            Self::activates_target(*old(self), *final(self), target),
    {
        let ghost before = *self;
        let ghost wanted = target;
        self.close_quick_open();
        let ghost closed = *self;
        assert(Self::closes_palette(before, closed));
        match target {
            QuickOpenTarget::Terminal { terminal_id } => {
                self.focus_terminal(terminal_id);
                let ghost focused = *self;
                assert(Self::focuses_terminal(closed, focused, terminal_id));
                self.emit(Effect::PublishNavigation);
                self.emit(Effect::RevealAgent { terminal_id });
                assert(self.effects@ =~= focused.effects@ + seq![
                    Effect::PublishNavigation,
                    Effect::RevealAgent { terminal_id },
                ]);
                assert(Self::jumps_to_terminal(closed, *self, terminal_id));
            },
            QuickOpenTarget::Project { workspace_id } => self.show_project_overview(workspace_id),
            QuickOpenTarget::Task { workspace_id, task_id } => {
                self.show_task_details_for(workspace_id, task_id);
                assert(Self::shows_task(closed, *self, workspace_id, task_id));
                self.emit(Effect::ScrollToTask { task_id });
                assert(Self::jumps_to_task(closed, *self, workspace_id, task_id));
            },
            QuickOpenTarget::File { root, root_label, path } => {
                let ghost (from, label, to) = (root, root_label@, path);
                self.file_explorer.mode = FileExplorerMode::Files;
                assert(*self == closed.listing_files());
                self.open_file_explorer(root, root_label);
                assert(Self::opens_explorer(closed.listing_files(), *self, from, label));
                self.open_file_in_editor(path);
                assert(Self::jumps_to_file(closed, *self, from, label, to));
            },
        }
        assert(Self::jumps(closed, *self, wanted));
    }
}

impl QuickOpenState {
    /// What the result at a place of the palette leads to.
    pub open spec fn leads_to(&self, place: int, target: QuickOpenTarget) -> bool {
        exists|results: Seq<usize>|
            {
                &&& #[trigger] self.is_result(results)
                &&& 0 <= place < results.len()
                &&& self.entries matches QuickOpenEntries::Ready(items) && results[place]
                    < items@.len() && items@[results[place] as int].target == target
            }
    }

    /// There is no result at the place.
    pub open spec fn leads_nowhere(&self, place: int) -> bool {
        exists|results: Seq<usize>| #[trigger] self.is_result(results) && place >= results.len()
    }
}

impl BlackholesApp {
    /// `after` is `before` with the result at a place of the palette activated.
    pub open spec fn activates_result(before: Self, after: Self, state: QuickOpenState, place: int) -> bool {
        ||| state.leads_nowhere(place) && after == before
        ||| exists|target: QuickOpenTarget| #[trigger]
            state.leads_to(place, target) && Self::activates_target(before, after, target)
    }

    fn activate_result(&mut self, place: usize)
        requires
            old(self).quick_open_fits(),
        ensures
            match old(self).quick_open {
                None => *final(self) == *old(self),
                Some(state) => Self::activates_result(
                    *old(self),
                    *final(self),
                    state,
                    place as int,
                ),
            },
    {
        let ghost before = *self;
        let results = self.quick_open_results();
        if place >= results.len() {
            assert(before.quick_open matches Some(state) ==> state.is_result(results@));
            return ;
        }
        let mut chosen: Option<QuickOpenTarget> = None;
        if let Some(state) = &self.quick_open {
            if let QuickOpenEntries::Ready(items) = &state.entries {
                let target = items[results[place]].target.duplicate();
                chosen = Some(target);
                assert(state.is_result(results@));
                assert(state.leads_to(place as int, chosen->0));
            }
        }
        assert(chosen is Some);
        if let Some(target) = chosen {
            let ghost wanted = target;
            self.activate_quick_open_target(target);
            assert(before.quick_open->0.leads_to(place as int, wanted));
        }
    }

    /// Activates the selected result of the palette.
    pub fn activate_quick_open_selected(&mut self)
        requires
            old(self).quick_open_fits(),
        ensures
            match old(self).quick_open {
                None => *final(self) == *old(self),
                Some(state) => Self::activates_result(
                    *old(self),
                    *final(self),
                    state,
                    state.selected as int,
                ),
            },
    {
        let selected: usize = match &self.quick_open {
            Some(state) => state.selected,
            None => 0,
        };
        self.activate_result(selected);
    }

    /// `after` is `before` with a result of the palette activated, if that is the
    /// one that is open.
    pub open spec fn activates_in(before: Self, after: Self, open_id: u64, place: int) -> bool {
        match before.quick_open {
            Some(state) if state.id == open_id => Self::activates_result(
                before,
                after,
                state,
                place,
            ),
            _ => after == before,
        }
    }

    /// Activates a result of the palette that is open.
    pub fn activate_quick_open_result(&mut self, open_id: u64, place: usize)
        requires
            old(self).quick_open_fits(),
        ensures
            Self::activates_in(*old(self), *final(self), open_id, place as int),
    {
        if self.palette_is_open(open_id) {
            self.activate_result(place);
        }
    }

    /// `after` is `before` with the palette dismissed, if it is the one that is
    /// open; the terminal in front gets the keyboard back.
    pub open spec fn dismisses_palette(before: Self, after: Self, open_id: u64) -> bool {
        if before.has_palette(open_id) {
            exists|closed: BlackholesApp| #[trigger]
                Self::closes_palette(before, closed) && Self::requests(
                    closed,
                    after,
                    closed.refocuses(),
                )
        } else {
            after == before
        }
    }

    /// Dismisses the palette that is open.
    pub fn dismiss_quick_open(&mut self, open_id: u64)
        ensures
            Self::dismisses_palette(*old(self), *final(self), open_id),
    {
        let ghost before = *self;
        if self.palette_is_open(open_id) {
            self.close_quick_open();
            assert(Self::closes_palette(before, *self));
            self.refocus_terminal();
        }
    }
}

/// A command from the palette's own page.
#[derive(Debug)]
pub enum QuickOpenCommand {
    Ready,
    QueryChanged { open_id: u64, query: String },
    Activate { open_id: u64, result_index: usize },
    Dismiss { open_id: u64 },
}

// ---------------------------------------------------------------------------
// The keyboard
// ---------------------------------------------------------------------------
/// The keys held with another one.
#[derive(Clone, Copy, Debug, PartialEq, Eq, Structural)]
pub struct KeyModifiers {
    pub control: bool,
    pub platform: bool,
    pub alt: bool,
    pub shift: bool,
    pub function: bool,
}

/// What a shortcut of the application opens.
#[derive(Clone, Copy, Debug, PartialEq, Eq, Structural)]
pub enum Shortcut {
    NavigationPalette,
    FilePalette,
}

/// Only the key for application shortcuts is held: the platform's on macOS, the
/// control key elsewhere.
pub open spec fn is_application_chord(modifiers: KeyModifiers, macos: bool) -> bool {
    modifiers == (KeyModifiers {
        control: !macos,
        platform: macos,
        alt: false,
        shift: false,
        function: false,
    })
}

/// What a key opens, whichever part of the window has the keyboard.
pub open spec fn shortcut_of(key: Seq<char>, modifiers: KeyModifiers, macos: bool) -> Option<Shortcut> {
    if !is_application_chord(modifiers, macos) {
        None
    } else if lowered(key) == "o"@ {
        Some(Shortcut::NavigationPalette)
    } else if lowered(key) == "p"@ {
        Some(Shortcut::FilePalette)
    } else {
        None
    }
}

/// What a key opens, whichever part of the window has the keyboard.
pub fn application_shortcut(key: &str, modifiers: KeyModifiers, macos: bool) -> (result: Option<
    Shortcut,
>)
    ensures
        result == shortcut_of(key@, modifiers, macos),
{
    let chord: bool = modifiers.control == !macos && modifiers.platform == macos && !modifiers.alt
        && !modifiers.shift && !modifiers.function;
    let pressed = lowercase(key);
    if !chord {
        None
    } else if same_text(pressed.as_str(), "o") {
        Some(Shortcut::NavigationPalette)
    } else if same_text(pressed.as_str(), "p") {
        Some(Shortcut::FilePalette)
    } else {
        None
    }
}

// ---------------------------------------------------------------------------
// The order of the agents
// ---------------------------------------------------------------------------
/// A terminal with an agent in it has the identifier.
pub open spec fn has_agent_terminal(terminals: Seq<TerminalDescriptor>, id: Id) -> bool {
    exists|i: int|
        0 <= i < terminals.len() && (#[trigger] terminals[i]).id == id && terminals[i].agent
            != AgentKind::Shell
}

/// The key is that of a terminal with an agent in it.
pub open spec fn is_agent_key(terminals: Seq<TerminalDescriptor>, key: Seq<char>) -> bool {
    &&& "terminal:"@.is_prefix_of(key)
    &&& uuid_of(encode_utf8(key.skip("terminal:"@.len() as int))) matches Some(id)
        && has_agent_terminal(terminals, id)
}

/// The keys of terminals with agents, each of them once, in the order they come.
pub open spec fn agent_keys(terminals: Seq<TerminalDescriptor>, keys: Seq<Seq<char>>) -> Seq<Seq<char>>
    decreases keys.len(),
{
    if keys.len() == 0 {
        Seq::empty()
    } else {
        let earlier = agent_keys(terminals, keys.drop_last());
        if is_agent_key(terminals, keys.last()) && !earlier.contains(keys.last()) {
            earlier.push(keys.last())
        } else {
            earlier
        }
    }
}

fn names_agent(terminals: &Vec<TerminalDescriptor>, key: &str) -> (result: bool)
    ensures
        result == is_agent_key(terminals@, key@),
{
    let rest = match strip_prefix(key, "terminal:") {
        Some(rest) => rest,
        None => {
            return false;
        },
    };
    proof {
        assert(key@.skip("terminal:"@.len() as int) =~= rest@);
        assert("terminal:"@ =~= key@.take("terminal:"@.len() as int));
    }
    let id: Id = match parse_id(rest.as_str()) {
        Some(id) => id,
        None => {
            return false;
        },
    };
    let mut index: usize = 0;
    while index < terminals.len()
        invariant
            index <= terminals@.len(),
            forall|i: int|
                0 <= i < index ==> !((#[trigger] terminals@[i]).id == id && terminals@[i].agent
                    != AgentKind::Shell),
            "terminal:"@.is_prefix_of(key@),
            uuid_of(encode_utf8(key@.skip("terminal:"@.len() as int))) == Some(id),
        decreases terminals@.len() - index,
    {
        if terminals[index].id == id && terminals[index].agent != AgentKind::Shell {
            assert(has_agent_terminal(terminals@, id));
            return true;
        }
        index += 1;
    }
    assert(!has_agent_terminal(terminals@, id));
    false
}

impl BlackholesApp {
    /// `after` is `before` with the agents in another order.
    pub open spec fn reorders(before: Self, after: Self, keys: Seq<Seq<char>>) -> bool {
        &&& views(after.session.agent_order@) == agent_keys(before.session.terminals@, keys)
        &&& after.effects@ == before.effects@ + seq![
            before.persists(),
            Effect::PublishNavigation,
            Effect::Redraw,
        ]
        &&& after == (BlackholesApp {
            session: AppSession { agent_order: after.session.agent_order, ..before.session },
            effects: after.effects,
            ..before
        })
    }

    /// The user put the agents into another order. What names no agent is left
    /// out, and so is what came before.
    pub fn reorder_agents(&mut self, keys: Vec<String>)
        ensures
            Self::reorders(*old(self), *final(self), views(keys@)),
    {
        let ghost before = *self;
        let ghost all = views(keys@);
        let mut order: Vec<String> = Vec::new();
        let mut index: usize = 0;
        assert(all.take(0) =~= Seq::<Seq<char>>::empty());
        assert(views(order@) =~= Seq::<Seq<char>>::empty());
        while index < keys.len()
            invariant
                *self == before,
                all == views(keys@),
                index <= keys@.len(),
                views(order@) == agent_keys(
                    before.session.terminals@,
                    all.take(index as int),
                ),
            decreases keys@.len() - index,
        {
            let ghost texts = views(order@);
            proof {
                let next = all.take(index + 1);
                assert(next.drop_last() =~= all.take(index as int));
                assert(next.last() == keys@[index as int]@);
                let key = keys@[index as int]@;
                assert(crate::model::has_text(order@, key) == texts.contains(key)) by {
                    if crate::model::has_text(order@, key) {
                        let i = choose|i: int|
                            0 <= i < order@.len() && (#[trigger] order@[i])@ == key;
                        assert(texts[i] == key);
                    }
                    if texts.contains(key) {
                        let i = choose|i: int| 0 <= i < texts.len() && texts[i] == key;
                        assert(order@[i]@ == key);
                    }
                }
            }
            if names_agent(&self.session.terminals, keys[index].as_str()) && !contains_text(
                &order,
                keys[index].as_str(),
            ) {
                order.push(keys[index].clone());
                assert(views(order@) =~= texts.push(keys@[index as int]@));
            }
            index += 1;
        }
        assert(all.take(index as int) =~= all);
        self.session.agent_order = order;
        self.persist_session();
        self.emit(Effect::PublishNavigation);
        self.notify();
        assert(self.effects@ =~= before.effects@ + seq![
            before.persists(),
            Effect::PublishNavigation,
            Effect::Redraw,
        ]);
    }
}

/// The order of the agents names every agent at most once, and only agents that
/// have a terminal.
pub proof fn law_agent_order(terminals: Seq<TerminalDescriptor>, keys: Seq<Seq<char>>)
    ensures
        agent_keys(terminals, keys).no_duplicates(),
        forall|i: int|
            0 <= i < agent_keys(terminals, keys).len() ==> is_agent_key(
                terminals,
                #[trigger] agent_keys(terminals, keys)[i],
            ),
    decreases keys.len(),
{
    if keys.len() > 0 {
        law_agent_order(terminals, keys.drop_last());
    }
}

// ---------------------------------------------------------------------------
// Commands of the tree
// ---------------------------------------------------------------------------
/// A command from the tree of projects.
#[derive(Debug)]
pub enum NavigationCommand {
    Ready,
    ShowHome,
    CollapseAll,
    NewProject,
    AddProjectRepository { workspace_id: Id },
    RemoveRepository { workspace_id: Id, repository_id: Id },
    SelectProject { workspace_id: Id },
    ToggleProject { workspace_id: Id },
    RefreshProject { workspace_id: Id },
    EditProject { workspace_id: Id },
    ProjectSettings { workspace_id: Id },
    RemoveProject { workspace_id: Id },
    NewTask { workspace_id: Id },
    SelectTask { workspace_id: Id, task_id: Id },
    ToggleTask { task_id: Id },
    EditTask { task_id: Id },
    RemoveTask { task_id: Id },
    SelectRepository { workspace_id: Id, task: Option<Id>, repository_id: Id },
    NewTerminal { workspace_id: Id, task: Option<Id>, repository: Option<Id>, agent: AgentKind },
    FocusTerminal { terminal_id: Id },
    CloseTerminal { terminal_id: Id },
    ReorderAgents { ids: Vec<String> },
    ShowSettings,
}

impl BlackholesApp {
    /// The repository of a project can be asked about.
    pub open spec fn can_ask_removal(&self, workspace_id: Id) -> bool {
        !self.modals.submitting() && self.has_workspace_webview && workspace_at(
            self.workspaces@,
            workspace_id,
        ) is Some
    }

    /// `after` is `before` with the folder of a project to be looked through, or
    /// the user told that it has none.
    pub open spec fn asks_for_scan(before: Self, after: Self, workspace_id: Id) -> bool {
        match workspace_at(before.workspaces@, workspace_id) {
            None => after == before,
            Some(at) => if before.workspaces@[at].root_path is None {
                Self::reports(
                    before,
                    after,
                    before.text(
                        "This project does not have a root folder"@,
                        "Este proyecto no tiene una carpeta raíz"@,
                    ),
                    true,
                )
            } else {
                Self::requests(before, after, seq![Effect::ScanProject { workspace_id }])
            },
        }
    }

    fn ask_for_scan(&mut self, workspace_id: Id)
        ensures
            Self::asks_for_scan(*old(self), *final(self), workspace_id),
    {
        let rooted: bool = match find_workspace(&self.workspaces, workspace_id) {
            Some(at) => self.workspaces[at].root_path.is_some(),
            None => false,
        };
        if rooted {
            self.emit(Effect::ScanProject { workspace_id });
        } else {
            let _ = self.refresh_project_repositories(workspace_id, Ok(Vec::new()));
        }
    }

    /// `after` is `before` with a new task wanted for a project.
    pub open spec fn wants_task(before: Self, after: Self, workspace_id: Id) -> bool {
        exists|chosen: BlackholesApp| #[trigger]
            Self::selects_surface(before, chosen, workspace_id, None, None, false)
                && Self::opens_create_task(chosen, after)
    }

    /// `after` is `before` with a new terminal wanted for a target.
    pub open spec fn wants_terminal(
        before: Self,
        after: Self,
        workspace_id: Id,
        task_id: Option<Id>,
        repository_id: Option<Id>,
        agent: AgentKind,
    ) -> bool {
        exists|chosen: BlackholesApp| #[trigger]
            Self::selects_surface(before, chosen, workspace_id, task_id, repository_id, false)
                && Self::requests(chosen, after, seq![Effect::PrepareTerminal { agent }])
    }

    /// `after` is `before` with a task seen and expanded or collapsed.
    pub open spec fn toggles_seen_task(before: Self, after: Self, task_id: Id) -> bool {
        exists|seen: BlackholesApp| #[trigger]
            Self::sees_task(before, seen, task_id) && Self::toggles_task(seen, after, task_id)
    }

    /// `after` is `before` with the details of a task shown, where it is known.
    pub open spec fn edits_task(before: Self, after: Self, task_id: Id) -> bool {
        match task_at(before.tasks@, task_id) {
            Some(at) => Self::shows_task(
                before,
                after,
                before.tasks@[at].workspace_id,
                before.tasks@[at].id,
            ),
            None => after == before,
        }
    }

    /// `after` is `before` with a command from the tree obeyed.
    pub open spec fn navigates(before: Self, after: Self, command: NavigationCommand) -> bool {
        match command {
            NavigationCommand::Ready => Self::requests(
                before,
                after,
                seq![Effect::PublishNavigation],
            ),
            NavigationCommand::ShowHome => Self::goes_home(before, after),
            NavigationCommand::CollapseAll => Self::collapses_all(before, after),
            NavigationCommand::NewProject => Self::opens_create_project(before, after),
            NavigationCommand::AddProjectRepository { workspace_id } => {
                Self::opens_additions(before, after, workspace_id)
            },
            NavigationCommand::RemoveRepository { workspace_id, repository_id } => {
                if before.can_ask_removal(workspace_id) {
                    Self::requests(
                        before,
                        after,
                        seq![Effect::PlanRemoval { workspace_id, repository_id }],
                    )
                } else {
                    after == before
                }
            },
            NavigationCommand::SelectProject { workspace_id } => Self::selects_surface(
                before,
                after,
                workspace_id,
                None,
                None,
                false,
            ),
            NavigationCommand::ToggleProject { workspace_id } => Self::toggles_workspace(
                before,
                after,
                workspace_id,
            ),
            NavigationCommand::RefreshProject { workspace_id } => Self::asks_for_scan(
                before,
                after,
                workspace_id,
            ),
            NavigationCommand::EditProject { workspace_id } => Self::opens_edit_project(
                before,
                after,
                workspace_id,
            ),
            NavigationCommand::ProjectSettings { workspace_id } => Self::asks_if_known(
                before,
                after,
                workspace_id,
                Effect::PrepareProjectSettings { workspace_id },
            ),
            NavigationCommand::RemoveProject { workspace_id } => Self::asks_to_remove_project(
                before,
                after,
                workspace_id,
            ),
            NavigationCommand::NewTask { workspace_id } => Self::wants_task(
                before,
                after,
                workspace_id,
            ),
            NavigationCommand::SelectTask { workspace_id, task_id } => Self::selects_surface(
                before,
                after,
                workspace_id,
                Some(task_id),
                None,
                false,
            ),
            NavigationCommand::ToggleTask { task_id } => Self::toggles_seen_task(
                before,
                after,
                task_id,
            ),
            NavigationCommand::EditTask { task_id } => Self::edits_task(before, after, task_id),
            NavigationCommand::RemoveTask { task_id } => Self::asks_to_remove_task(
                before,
                after,
                task_id,
            ),
            NavigationCommand::SelectRepository { workspace_id, task, repository_id } => {
                Self::selects_repository(before, after, workspace_id, task, repository_id)
            },
            NavigationCommand::NewTerminal { workspace_id, task, repository, agent } => {
                Self::wants_terminal(before, after, workspace_id, task, repository, agent)
            },
            NavigationCommand::FocusTerminal { terminal_id } => Self::focuses_terminal(
                before,
                after,
                terminal_id,
            ),
            NavigationCommand::CloseTerminal { terminal_id } => Self::requests_close(
                before,
                after,
                terminal_id,
            ),
            NavigationCommand::ReorderAgents { ids } => Self::reorders(before, after, views(ids@)),
            NavigationCommand::ShowSettings => Self::opens_settings(before, after),
        }
    }

    /// `after` is `before` with a request made, where a project is known.
    pub open spec fn asks_if_known(before: Self, after: Self, workspace_id: Id, effect: Effect) -> bool {
        if workspace_at(before.workspaces@, workspace_id) is Some {
            Self::requests(before, after, seq![effect])
        } else {
            after == before
        }
    }

    pub(crate) fn ask_if_known(&mut self, workspace_id: Id, effect: Effect)
        ensures
            Self::asks_if_known(*old(self), *final(self), workspace_id, effect),
    {
        if find_workspace(&self.workspaces, workspace_id).is_some() {
            self.emit(effect);
        }
    }

    /// Obeys a command from the tree of projects.
    pub fn handle_navigation_command(&mut self, command: NavigationCommand)
        ensures
            Self::navigates(*old(self), *final(self), command),
    {
        let ghost before = *self;
        match command {
            NavigationCommand::Ready => self.emit(Effect::PublishNavigation),
            NavigationCommand::ShowHome => self.show_home(),
            NavigationCommand::CollapseAll => self.collapse_all_navigation(),
            NavigationCommand::NewProject => self.open_create_project(),
            NavigationCommand::AddProjectRepository { workspace_id } => {
                self.open_add_project_repository(workspace_id)
            },
            NavigationCommand::RemoveRepository { workspace_id, repository_id } => {
                if !self.modals.project_submitting && !self.modals.task_submitting
                    && self.has_workspace_webview && find_workspace(
                    &self.workspaces,
                    workspace_id,
                ).is_some() {
                    self.emit(Effect::PlanRemoval { workspace_id, repository_id });
                }
            },
            NavigationCommand::SelectProject { workspace_id } => self.select_target(
                workspace_id,
                None,
                None,
            ),
            NavigationCommand::ToggleProject { workspace_id } => self.toggle_workspace_expanded(
                workspace_id,
            ),
            NavigationCommand::RefreshProject { workspace_id } => self.ask_for_scan(workspace_id),
            NavigationCommand::EditProject { workspace_id } => self.open_edit_project(workspace_id),
            NavigationCommand::ProjectSettings { workspace_id } => self.ask_if_known(
                workspace_id,
                Effect::PrepareProjectSettings { workspace_id },
            ),
            NavigationCommand::RemoveProject { workspace_id } => {
                self.open_remove_project_confirmation(workspace_id)
            },
            NavigationCommand::NewTask { workspace_id } => {
                self.select_target(workspace_id, None, None);
                assert(Self::selects_surface(before, *self, workspace_id, None, None, false));
                self.open_create_task();
            },
            NavigationCommand::SelectTask { workspace_id, task_id } => self.select_target(
                workspace_id,
                Some(task_id),
                None,
            ),
            NavigationCommand::ToggleTask { task_id } => {
                self.mark_task_seen(task_id);
                assert(Self::sees_task(before, *self, task_id));
                self.toggle_task_expanded(task_id);
            },
            NavigationCommand::EditTask { task_id } => {
                if let Some(at) = find_task(&self.tasks, task_id) {
                    let workspace_id: Id = self.tasks[at].workspace_id;
                    let found: Id = self.tasks[at].id;
                    self.show_task_details_for(workspace_id, found);
                }
            },
            NavigationCommand::RemoveTask { task_id } => self.open_remove_task_confirmation(
                task_id,
            ),
            NavigationCommand::SelectRepository { workspace_id, task, repository_id } => {
                self.select_repository_target(workspace_id, task, repository_id)
            },
            NavigationCommand::NewTerminal { workspace_id, task, repository, agent } => {
                self.select_target(workspace_id, task, repository);
                assert(Self::selects_surface(before, *self, workspace_id, task, repository, false));
                self.emit(Effect::PrepareTerminal { agent });
            },
            NavigationCommand::FocusTerminal { terminal_id } => self.focus_terminal(terminal_id),
            NavigationCommand::CloseTerminal { terminal_id } => self.request_close_terminal(
                terminal_id,
            ),
            NavigationCommand::ReorderAgents { ids } => self.reorder_agents(ids),
            NavigationCommand::ShowSettings => self.show_settings(),
        }
    }
}

// ---------------------------------------------------------------------------
// Where commands lead
// ---------------------------------------------------------------------------
/// A shortcut takes the key of the platform and no other: O for navigation, P for
/// files.
pub proof fn law_shortcuts(key: Seq<char>, modifiers: KeyModifiers, macos: bool)
    ensures
        shortcut_of(key, modifiers, macos) is Some ==> !modifiers.alt && !modifiers.shift
            && !modifiers.function && modifiers.control != modifiers.platform
            && modifiers.platform == macos,
        shortcut_of(key, modifiers, macos) == Some(Shortcut::NavigationPalette) ==> lowered(key)
            == "o"@,
        shortcut_of(key, modifiers, macos) == Some(Shortcut::FilePalette) ==> lowered(key) == "p"@,
        !modifiers.alt && !modifiers.shift && !modifiers.function && modifiers.control == !macos
            && modifiers.platform == macos ==> (lowered(key) == "o"@ ==> shortcut_of(
            key,
            modifiers,
            macos,
        ) == Some(Shortcut::NavigationPalette)) && (lowered(key) == "p"@ ==> shortcut_of(
            key,
            modifiers,
            macos,
        ) == Some(Shortcut::FilePalette)),
{
    reveal_strlit("o");
    reveal_strlit("p");
    assert("o"@[0] == 'o' && "p"@[0] == 'p');
}

/// A result leads where it says: to the overview of its project, the details of its
/// task, its file in the editor, or its terminal in front. The palette is closed.
pub proof fn law_target_activated(
    before: BlackholesApp,
    after: BlackholesApp,
    target: QuickOpenTarget,
    at: int,
)
    requires
        BlackholesApp::activates_target(before, after, target),
        match target {
            QuickOpenTarget::Project { workspace_id } => 0 <= at < before.workspaces@.len()
                && before.workspaces@[at].id == workspace_id,
            QuickOpenTarget::Task { workspace_id, task_id } => 0 <= at < before.tasks@.len()
                && before.tasks@[at].id == task_id && before.tasks@[at].workspace_id
                == workspace_id,
            QuickOpenTarget::Terminal { terminal_id } => crate::terminals::stands_at(
                before.session.terminals@,
                terminal_id,
                at,
            ),
            QuickOpenTarget::File { .. } => true,
        },
    ensures
        match target {
            QuickOpenTarget::Project { workspace_id } => after.surface_shown() == Some(
                SurfaceTarget::ProjectOverview { workspace_id },
            ) && after.session.selected_workspace_id == Some(workspace_id)
                && after.session.selected_task_id is None,
            QuickOpenTarget::Task { workspace_id, task_id } => after.surface_shown() == Some(
                SurfaceTarget::TaskDetails { task_id },
            ) && after.session.selected_task_id == Some(task_id) && after.effects@.last() == (
            Effect::ScrollToTask { task_id }),
            QuickOpenTarget::Terminal { terminal_id } => after.surface.show_terminal
                && after.session.selected_workspace_id == Some(
                before.session.terminals@[at].workspace_id,
            ) && after.session.selected_task_id == before.session.terminals@[at].task_id
                && after.effects@.last() == (Effect::RevealAgent { terminal_id }),
            QuickOpenTarget::File { root, path, .. } => after.file_explorer.open && (
            after.file_explorer.root matches Some(shown) && crate::paths::components(shown@)
                == crate::paths::components(root@)) && after.file_explorer.mode
                == FileExplorerMode::Files && (after.active_file matches Some(file)
                && crate::paths::components(file.path@) == crate::paths::components(path@)),
        },
        after.quick_open is None,
{
    let closed = choose|closed: BlackholesApp| #[trigger]
        BlackholesApp::closes_palette(before, closed) && BlackholesApp::jumps(
            closed,
            after,
            target,
        );
    match target {
        QuickOpenTarget::Project { workspace_id } => {
            crate::selection::law_project_shown(closed, after, workspace_id, at);
        },
        QuickOpenTarget::Task { workspace_id, task_id } => {
            let shown = choose|shown: BlackholesApp| #[trigger]
                BlackholesApp::shows_task(closed, shown, workspace_id, task_id)
                    && BlackholesApp::requests(shown, after, seq![Effect::ScrollToTask { task_id }]);
            crate::selection::law_task_shown(closed, shown, workspace_id, task_id, at);
        },
        QuickOpenTarget::Terminal { terminal_id } => {
            let focused = choose|focused: BlackholesApp| #[trigger]
                BlackholesApp::focuses_terminal(closed, focused, terminal_id)
                    && BlackholesApp::requests(
                    focused,
                    after,
                    seq![Effect::PublishNavigation, Effect::RevealAgent { terminal_id }],
                );
            crate::launching::law_terminal_focused(closed, focused, terminal_id, at);
        },
        QuickOpenTarget::File { root, root_label, path } => {
            let listed = choose|listed: BlackholesApp| #[trigger]
                BlackholesApp::opens_explorer(closed.listing_files(), listed, root, root_label@)
                    && BlackholesApp::opens_file(listed, after, path);
            crate::browsing::law_explorer_opened(
                closed.listing_files(),
                listed,
                root,
                root_label@,
            );
            crate::documents::law_file_opened(listed, after, path);
        },
    }
}

/// A project is scanned again only where it has a folder, and its settings are
/// asked for only where it is known; the user is told of a project that has none.
pub proof fn law_project_commands(
    before: BlackholesApp,
    after: BlackholesApp,
    command: NavigationCommand,
    at: int,
)
    requires
        BlackholesApp::navigates(before, after, command),
        0 <= at < before.workspaces@.len(),
        forall|i: int|
            0 <= i < at ==> (#[trigger] before.workspaces@[i]).id != before.workspaces@[at].id,
    ensures
        command == (NavigationCommand::RefreshProject { workspace_id: before.workspaces@[at].id })
            ==> {
            &&& before.workspaces@[at].root_path is Some ==> BlackholesApp::asked(before, after)
                == seq![Effect::ScanProject { workspace_id: before.workspaces@[at].id }]
            &&& before.workspaces@[at].root_path is None ==> (after.status matches Some(status)
                && status.error)
        },
        command == (NavigationCommand::ProjectSettings { workspace_id: before.workspaces@[at].id })
            ==> BlackholesApp::asked(before, after) == seq![
            Effect::PrepareProjectSettings { workspace_id: before.workspaces@[at].id },
        ],
        command is Ready ==> BlackholesApp::asked(before, after) == seq![Effect::PublishNavigation],
{
    let wanted = crate::model::workspace_is(before.workspaces@[at].id);
    crate::search::lemma_first_where(before.workspaces@, wanted, 0);
    assert(wanted(before.workspaces@[at]));
    assert(BlackholesApp::asked(before, after) =~= after.effects@.subrange(
        before.effects@.len() as int,
        after.effects@.len() as int,
    ));
}

} // verus!
