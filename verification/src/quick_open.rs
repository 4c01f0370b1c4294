//! The quick-open palettes: what can be opened, how a query ranks it, and what
//! is shown.
use vstd::prelude::*;
use vstd::string::*;
use vstd::utf8::encode_utf8;

use crate::app::{
    agent_name, BlackholesApp, QuickOpenEntries, QuickOpenItem, QuickOpenMode, QuickOpenState,
    QuickOpenTarget,
};
use crate::effects::Effect;
use crate::ids::{id_text, uuid_text};
use crate::labels::{
    color_css, color_value, entry_icon, file_tree_icon, icon_code, icon_named, opaque_css,
    project_icon_kind, quick_open_css_color, quick_open_icon_id, workspace_color,
    workspace_color_css, AppIcon, FileEntryKind,
};
use crate::model::{
    find_repository, find_workspace, repository_at, workspace_at, AgentKind, ProjectTask,
    TerminalDescriptor, Workspace,
};
use crate::navigation::{task_of_project, terminal_context};
use crate::paths::{file_name, name_of};
use crate::ranking::{is_order, key_values, order_by_key};
use crate::scoring::{quick_open_score, score, score_fits};
use crate::search::lemma_filter_step;
use crate::text::{
    decimal, decimal_text, join2, join3, join4, join5, lowercase, lowered, same_text, trim, trimmed,
};

verus! {

/// How many files a palette shows at most.
pub const QUICK_OPEN_RESULT_LIMIT: usize = 14;

// ---------------------------------------------------------------------------
// What can be opened
// ---------------------------------------------------------------------------
/// Something about a text, by its characters.
pub open spec fn item_is(
    item: QuickOpenItem,
    title: Seq<char>,
    subtitle: Seq<char>,
    search_key: Seq<char>,
    kind_label: Seq<char>,
) -> bool {
    &&& item.title@ == title
    &&& item.subtitle@ == subtitle
    &&& item.search_key@ == lowered(search_key)
    &&& item.kind_label@ == kind_label
}

pub open spec fn project_subtitle(app: BlackholesApp, workspace: Workspace) -> Seq<char> {
    app.text("Project"@, "Proyecto"@) + " · "@ + decimal(workspace.repositories@.len()) + " "@
        + app.text("repositories"@, "repositorios"@) + " · "@ + decimal(
        app.tasks@.filter(task_of_project(workspace.id)).len(),
    ) + " "@ + app.text("tasks"@, "tareas"@)
}

pub open spec fn project_item_shows(app: BlackholesApp, workspace: Workspace, item: QuickOpenItem) -> bool {
    let subtitle = project_subtitle(app, workspace);
    &&& item_is(
        item,
        workspace.label@,
        subtitle,
        workspace.label@ + " "@ + subtitle,
        app.text("Project"@, "Proyecto"@),
    )
    &&& item.icon == icon_named(workspace.icon@)
    &&& item.color == color_value(workspace.color)
    &&& item.color_css@ == color_css(workspace.color)
    &&& item.terminal_provider is None
    &&& item.target == (QuickOpenTarget::Project { workspace_id: workspace.id })
}

pub open spec fn task_subtitle(app: BlackholesApp, task: ProjectTask) -> Seq<char> {
    app.text("Task"@, "Tarea"@) + " · "@ + match workspace_at(app.workspaces@, task.workspace_id) {
        Some(at) => app.workspaces@[at].label@,
        None => Seq::empty(),
    }
}

pub open spec fn task_item_shows(app: BlackholesApp, task: ProjectTask, item: QuickOpenItem) -> bool {
    let subtitle = task_subtitle(app, task);
    &&& item_is(
        item,
        task.title@,
        subtitle,
        task.title@ + " "@ + subtitle,
        app.text("Task"@, "Tarea"@),
    )
    &&& item.icon == icon_named(task.icon@)
    &&& item.color == color_value(task.color)
    &&& item.color_css@ == color_css(task.color)
    &&& item.terminal_provider is None
    &&& item.target == (QuickOpenTarget::Task {
        workspace_id: task.workspace_id,
        task_id: task.id,
    })
}

/// The name of the repository a terminal is in, behind a dot.
pub open spec fn terminal_repository_suffix(app: BlackholesApp, terminal: TerminalDescriptor) -> Seq<char> {
    match (workspace_at(app.workspaces@, terminal.workspace_id), terminal.repository_id) {
        (Some(at), Some(repository_id)) => {
            let repositories = app.workspaces@[at].repositories@;
            match repository_at(repositories, repository_id) {
                Some(found) => " · "@ + repositories[found].name@,
                None => Seq::empty(),
            }
        },
        _ => Seq::empty(),
    }
}

pub open spec fn terminal_subtitle(app: BlackholesApp, terminal: TerminalDescriptor) -> Seq<char> {
    agent_name(app.agent_labels, terminal.agent) + " · "@ + terminal_context(app, terminal)
        + terminal_repository_suffix(app, terminal)
}

/// Further words that a terminal is found under.
pub open spec fn terminal_words(agent: AgentKind) -> Seq<char> {
    " Terminal "@ + (if agent == AgentKind::Antigravity {
        "agy"@
    } else {
        ""@
    }) + (if agent == AgentKind::Shell {
        " shell"@
    } else {
        " agent agente"@
    })
}

pub open spec fn terminal_item_shows(
    app: BlackholesApp,
    terminal: TerminalDescriptor,
    item: QuickOpenItem,
) -> bool {
    let subtitle = terminal_subtitle(app, terminal);
    &&& item_is(
        item,
        terminal.label@,
        subtitle,
        terminal.label@ + " "@ + subtitle + terminal_words(terminal.agent),
        "Terminal"@,
    )
    &&& item.icon == AppIcon::SquareTerminal
    &&& item.color == 0x8190d7
    &&& item.color_css@ == "#8190d7"@
    &&& item.terminal_provider == Some(terminal.agent)
    &&& item.target == (QuickOpenTarget::Terminal { terminal_id: terminal.id })
}

/// The key that the order of the agents names a terminal by.
pub open spec fn terminal_key(terminal: TerminalDescriptor) -> Seq<char> {
    "terminal:"@ + uuid_text(terminal.id)
}

/// Where the text stands first, the largest position where it does not.
pub open spec fn rank_in(order: Seq<String>, key: Seq<char>, from: int) -> int
    decreases order.len() - from,
{
    if from < 0 || from >= order.len() {
        usize::MAX as int
    } else if order[from]@ == key {
        from
    } else {
        rank_in(order, key, from + 1)
    }
}

/// The terminals rank by the order the user gave their agents.
pub open spec fn terminal_ranks(app: BlackholesApp) -> Seq<Option<int>> {
    app.session.terminals@.map_values(
        |terminal: TerminalDescriptor|
            Some(rank_in(app.session.agent_order@, terminal_key(terminal), 0)),
    )
}

/// What can be navigated to: the projects, the tasks, and the terminals in
/// their order.
pub open spec fn navigation_items_show(app: BlackholesApp, items: Seq<QuickOpenItem>) -> bool {
    let projects = app.workspaces@.len();
    let tasks = app.tasks@.len();
    let terminals = app.session.terminals@.len();
    &&& items.len() == projects + tasks + terminals
    &&& forall|i: int|
        0 <= i < projects ==> project_item_shows(app, app.workspaces@[i], #[trigger] items[i])
    &&& forall|i: int|
        projects <= i < projects + tasks ==> task_item_shows(
            app,
            app.tasks@[i - projects],
            #[trigger] items[i],
        )
    &&& exists|order: Seq<usize>|
        #![trigger is_order(terminal_ranks(app), order)]
        {
            &&& is_order(terminal_ranks(app), order)
            &&& order.len() == terminals
            &&& forall|i: int|
                projects + tasks <= i < items.len() ==> terminal_item_shows(
                    app,
                    app.session.terminals@[order[i - projects - tasks] as int],
                    #[trigger] items[i],
                )
        }
}

fn find_rank(order: &Vec<String>, key: &str) -> (result: usize)
    ensures
        result == rank_in(order@, key@, 0),
{
    let mut index: usize = 0;
    while index < order.len()
        invariant
            index <= order@.len(),
            rank_in(order@, key@, 0) == rank_in(order@, key@, index as int),
        decreases order@.len() - index,
    {
        if same_text(order[index].as_str(), key) {
            return index;
        }
        index += 1;
    }
    usize::MAX
}

/// An order of positions that all have a key holds each of them.
proof fn lemma_order_full(keys: Seq<Option<int>>, order: Seq<usize>)
    requires
        is_order(keys, order),
        keys.len() <= usize::MAX,
        forall|i: int| 0 <= i < keys.len() ==> (#[trigger] keys[i]) is Some,
    ensures
        order.len() == keys.len(),
{
    let positions = order.map_values(|at: usize| at as int);
    assert(positions.no_duplicates()) by {
        assert forall|j: int, k: int| 0 <= j < k < order.len() implies positions[j] != positions[k] by {
            assert(crate::ranking::comes_before(keys, order[j] as int, order[k] as int));
        }
    }
    positions.unique_seq_to_set();
    let range = vstd::set_lib::set_int_range(0, keys.len() as int);
    vstd::set_lib::lemma_int_range(0, keys.len() as int);
    assert(positions.to_set() =~= range) by {
        assert forall|i: int| #[trigger] positions.to_set().contains(i) <==> range.contains(i) by {
            if positions.to_set().contains(i) {
                let k = choose|k: int| 0 <= k < positions.len() && positions[k] == i;
                assert(order[k] < keys.len());
            }
            if range.contains(i) {
                assert(keys[i] is Some);
                assert(order.contains(i as usize));
                let k = choose|k: int| 0 <= k < order.len() && order[k] == i as usize;
                assert(positions[k] == i);
            }
        }
    }
}

impl BlackholesApp {
    fn count_tasks(&self, workspace: &Workspace) -> (result: usize)
        ensures
            result == self.tasks@.filter(task_of_project(workspace.id)).len(),
    {
        let ghost keep = task_of_project(workspace.id);
        let mut count: usize = 0;
        let mut index: usize = 0;
        assert(self.tasks@.take(0).filter(keep) =~= Seq::<ProjectTask>::empty());
        while index < self.tasks.len()
            invariant
                keep == task_of_project(workspace.id),
                index <= self.tasks@.len(),
                count <= index,
                count == self.tasks@.take(index as int).filter(keep).len(),
            decreases self.tasks@.len() - index,
        {
            proof {
                lemma_filter_step(self.tasks@, keep, index as int);
            }
            if self.tasks[index].workspace_id == workspace.id {
                count += 1;
            }
            index += 1;
        }
        assert(self.tasks@.take(index as int) =~= self.tasks@);
        count
    }

    fn project_item(&self, workspace: &Workspace) -> (result: QuickOpenItem)
        ensures
            project_item_shows(*self, *workspace, result),
    {
        let kind = self.tr("Project", "Proyecto");
        let repositories = decimal_text(workspace.repositories.len() as u64);
        let tasks = decimal_text(self.count_tasks(workspace) as u64);
        let head = join5(
            kind,
            " · ",
            repositories.as_str(),
            " ",
            self.tr("repositories", "repositorios"),
        );
        let subtitle = join5(
            head.as_str(),
            " · ",
            tasks.as_str(),
            " ",
            self.tr("tasks", "tareas"),
        );
        assert(subtitle@ =~= project_subtitle(*self, *workspace));
        let key = join3(workspace.label.as_str(), " ", subtitle.as_str());
        QuickOpenItem {
            title: workspace.label.clone(),
            subtitle,
            search_key: lowercase(key.as_str()),
            kind_label: kind.to_string(),
            icon: project_icon_kind(workspace.icon.as_str()),
            color: workspace_color(workspace.color),
            color_css: workspace_color_css(workspace.color).to_string(),
            terminal_provider: None,
            target: QuickOpenTarget::Project { workspace_id: workspace.id },
        }
    }

    fn task_item(&self, task: &ProjectTask) -> (result: QuickOpenItem)
        ensures
            task_item_shows(*self, *task, result),
    {
        let kind = self.tr("Task", "Tarea");
        let subtitle = match find_workspace(&self.workspaces, task.workspace_id) {
            Some(at) => join3(kind, " · ", self.workspaces[at].label.as_str()),
            None => join2(kind, " · "),
        };
        assert(subtitle@ =~= task_subtitle(*self, *task));
        let key = join3(task.title.as_str(), " ", subtitle.as_str());
        QuickOpenItem {
            title: task.title.clone(),
            subtitle,
            search_key: lowercase(key.as_str()),
            kind_label: kind.to_string(),
            icon: project_icon_kind(task.icon.as_str()),
            color: workspace_color(task.color),
            color_css: workspace_color_css(task.color).to_string(),
            terminal_provider: None,
            target: QuickOpenTarget::Task { workspace_id: task.workspace_id, task_id: task.id },
        }
    }

    fn repository_suffix(&self, terminal: &TerminalDescriptor) -> (result: String)
        ensures
            result@ == terminal_repository_suffix(*self, *terminal),
    {
        if let Some(at) = find_workspace(&self.workspaces, terminal.workspace_id) {
            if let Some(repository_id) = terminal.repository_id {
                let repositories = &self.workspaces[at].repositories;
                if let Some(found) = find_repository(repositories, repository_id) {
                    return join2(" · ", repositories[found].name.as_str());
                }
            }
        }
        String::new()
    }

    fn terminal_item(&self, terminal: &TerminalDescriptor) -> (result: QuickOpenItem)
        ensures
            terminal_item_shows(*self, *terminal, result),
    {
        let context = self.context_of_terminal(terminal);
        let suffix = self.repository_suffix(terminal);
        let subtitle = join4(
            self.agent_labels.label(terminal.agent),
            " · ",
            context.as_str(),
            suffix.as_str(),
        );
        assert(subtitle@ =~= terminal_subtitle(*self, *terminal));
        let more = join3(
            " Terminal ",
            if terminal.agent == AgentKind::Antigravity {
                "agy"
            } else {
                ""
            },
            if terminal.agent == AgentKind::Shell {
                " shell"
            } else {
                " agent agente"
            },
        );
        let key = join4(terminal.label.as_str(), " ", subtitle.as_str(), more.as_str());
        QuickOpenItem {
            title: terminal.label.clone(),
            subtitle,
            search_key: lowercase(key.as_str()),
            kind_label: "Terminal".to_string(),
            icon: AppIcon::SquareTerminal,
            color: 0x8190d7,
            color_css: "#8190d7".to_string(),
            terminal_provider: Some(terminal.agent),
            target: QuickOpenTarget::Terminal { terminal_id: terminal.id },
        }
    }

    /// The positions of the terminals, in the order of their agents.
    fn ordered_terminals(&self) -> (result: Vec<usize>)
        ensures
            is_order(terminal_ranks(*self), result@),
            result@.len() == self.session.terminals@.len(),
    {
        let terminals = &self.session.terminals;
        let mut keys: Vec<Option<i128>> = Vec::new();
        let mut index: usize = 0;
        while index < terminals.len()
            invariant
                terminals == &self.session.terminals,
                index <= terminals@.len(),
                keys@.len() == index,
                forall|i: int|
                    0 <= i < index ==> key_values(keys@)[i] == #[trigger] terminal_ranks(*self)[i],
            decreases terminals@.len() - index,
        {
            let id = id_text(terminals[index].id);
            let key = join2("terminal:", id.as_str());
            let rank: usize = find_rank(&self.session.agent_order, key.as_str());
            let ghost before = keys@;
            keys.push(Some(rank as i128));
            proof {
                assert forall|i: int| 0 <= i <= index implies key_values(keys@)[i]
                    == #[trigger] terminal_ranks(*self)[i] by {
                    if i < index {
                        assert(key_values(before)[i] == terminal_ranks(*self)[i]);
                    }
                }
            }
            index += 1;
        }
        assert(key_values(keys@) =~= terminal_ranks(*self));
        let result = order_by_key(&keys);
        proof {
            lemma_order_full(terminal_ranks(*self), result@);
        }
        result
    }

    /// What can be navigated to.
    pub fn navigation_quick_open_items(&self) -> (result: Vec<QuickOpenItem>)
        ensures
            navigation_items_show(*self, result@),
    {
        let mut items: Vec<QuickOpenItem> = Vec::new();
        let ghost projects = self.workspaces@.len();
        let ghost tasks = self.tasks@.len();
        let mut index: usize = 0;
        while index < self.workspaces.len()
            invariant
                index <= self.workspaces@.len(),
                items@.len() == index,
                forall|i: int|
                    0 <= i < index ==> project_item_shows(
                        *self,
                        self.workspaces@[i],
                        #[trigger] items@[i],
                    ),
            decreases self.workspaces@.len() - index,
        {
            items.push(self.project_item(&self.workspaces[index]));
            index += 1;
        }
        index = 0;
        while index < self.tasks.len()
            invariant
                projects == self.workspaces@.len(),
                index <= self.tasks@.len(),
                items@.len() == projects + index,
                forall|i: int|
                    0 <= i < projects ==> project_item_shows(
                        *self,
                        self.workspaces@[i],
                        #[trigger] items@[i],
                    ),
                forall|i: int|
                    projects <= i < projects + index ==> task_item_shows(
                        *self,
                        self.tasks@[i - projects],
                        #[trigger] items@[i],
                    ),
            decreases self.tasks@.len() - index,
        {
            items.push(self.task_item(&self.tasks[index]));
            index += 1;
        }
        let order = self.ordered_terminals();
        index = 0;
        while index < order.len()
            invariant
                projects == self.workspaces@.len(),
                tasks == self.tasks@.len(),
                is_order(terminal_ranks(*self), order@),
                order@.len() == self.session.terminals@.len(),
                index <= order@.len(),
                items@.len() == projects + tasks + index,
                forall|i: int|
                    0 <= i < projects ==> project_item_shows(
                        *self,
                        self.workspaces@[i],
                        #[trigger] items@[i],
                    ),
                forall|i: int|
                    projects <= i < projects + tasks ==> task_item_shows(
                        *self,
                        self.tasks@[i - projects],
                        #[trigger] items@[i],
                    ),
                forall|i: int|
                    projects + tasks <= i < items@.len() ==> terminal_item_shows(
                        *self,
                        self.session.terminals@[order@[i - projects - tasks] as int],
                        #[trigger] items@[i],
                    ),
            decreases order@.len() - index,
        {
            assert(order@[index as int] < terminal_ranks(*self).len());
            items.push(self.terminal_item(&self.session.terminals[order[index]]));
            index += 1;
        }
        items
    }
}

/// A file of a repository, as it was indexed.
#[derive(Debug)]
pub struct IndexedRepositoryFile {
    pub path: String,
    pub relative_path: String,
}

pub open spec fn file_title(relative_path: Seq<char>) -> Seq<char> {
    match name_of(relative_path) {
        Some(name) => name,
        None => relative_path,
    }
}

pub open spec fn file_item_shows(
    app: BlackholesApp,
    root: String,
    root_label: String,
    file: IndexedRepositoryFile,
    item: QuickOpenItem,
) -> bool {
    &&& item_is(
        item,
        file_title(file.relative_path@),
        file.relative_path@,
        file.relative_path@,
        app.text("File"@, "Archivo"@),
    )
    &&& (item.icon, item.color) == entry_icon(FileEntryKind::File, file.path@, false)
    &&& item.color_css@ == opaque_css(item.color)
    &&& item.terminal_provider is None
    &&& item.target == (QuickOpenTarget::File { root, root_label, path: file.path })
}

pub open spec fn file_items_show(
    app: BlackholesApp,
    root: String,
    root_label: String,
    files: Seq<IndexedRepositoryFile>,
    items: Seq<QuickOpenItem>,
) -> bool {
    &&& items.len() == files.len()
    &&& forall|i: int|
        0 <= i < files.len() ==> file_item_shows(app, root, root_label, files[i], #[trigger] items[i])
}

impl BlackholesApp {
    fn file_item(&self, root: &String, root_label: &String, file: IndexedRepositoryFile) -> (result:
        QuickOpenItem)
        ensures
            file_item_shows(*self, *root, *root_label, file, result),
    {
        let title = match file_name(file.relative_path.as_str()) {
            Some(name) => name,
            None => file.relative_path.clone(),
        };
        let (icon, color) = file_tree_icon(FileEntryKind::File, file.path.as_str(), false);
        QuickOpenItem {
            title,
            subtitle: file.relative_path.clone(),
            search_key: lowercase(file.relative_path.as_str()),
            kind_label: self.tr("File", "Archivo").to_string(),
            icon,
            color,
            color_css: quick_open_css_color(color),
            terminal_provider: None,
            target: QuickOpenTarget::File {
                root: root.clone(),
                root_label: root_label.clone(),
                path: file.path,
            },
        }
    }

    fn file_items(&self, root: &String, root_label: &String, files: Vec<IndexedRepositoryFile>) -> (result:
        Vec<QuickOpenItem>)
        ensures
            file_items_show(*self, *root, *root_label, files@, result@),
    {
        let ghost wanted = files@;
        let mut rest = files;
        let mut items: Vec<QuickOpenItem> = Vec::new();
        while rest.len() > 0
            invariant
                rest@.len() <= wanted.len(),
                rest@ == wanted.skip(wanted.len() - rest@.len()),
                items@.len() == wanted.len() - rest@.len(),
                forall|i: int|
                    0 <= i < items@.len() ==> file_item_shows(
                        *self,
                        *root,
                        *root_label,
                        wanted[i],
                        #[trigger] items@[i],
                    ),
            decreases rest@.len(),
        {
            let ghost done = wanted.len() - rest@.len();
            let file = rest.remove(0);
            assert(file == wanted[done]);
            assert(rest@ =~= wanted.skip(done + 1));
            items.push(self.file_item(root, root_label, file));
        }
        items
    }

    /// The palette is the one of files that the index was made for.
    pub open spec fn awaits_index(&self, id: u64) -> bool {
        self.quick_open matches Some(state) && state.id == id && state.mode == QuickOpenMode::Files
    }

    /// `after` is `before` after the files of a repository were indexed. An index for
    /// a palette that is no longer open changes nothing.
    pub open spec fn answers_index(
        before: Self,
        after: Self,
        id: u64,
        root: String,
        root_label: String,
        result: Result<Vec<IndexedRepositoryFile>, String>,
    ) -> bool {
        if before.awaits_index(id) {
            &&& after.quick_open matches Some(state) && state == (QuickOpenState {
                entries: state.entries,
                selected: 0,
                ..before.quick_open->0
            }) && match result {
                Ok(files) => state.entries matches QuickOpenEntries::Ready(items)
                    && file_items_show(before, root, root_label, files@, items@),
                Err(error) => state.entries == QuickOpenEntries::Error(error),
            }
            &&& after.effects@ == before.effects@ + seq![Effect::PublishQuickOpen, Effect::Redraw]
            &&& after == (BlackholesApp {
                quick_open: after.quick_open,
                effects: after.effects,
                ..before
            })
        } else {
            after == before
        }
    }

    /// The files of a repository were indexed.
    pub fn finish_file_palette_index(
        &mut self,
        id: u64,
        root: String,
        root_label: String,
        result: Result<Vec<IndexedRepositoryFile>, String>,
    )
        ensures
            Self::answers_index(*old(self), *final(self), id, root, root_label, result),
    {
        let current: bool = match &self.quick_open {
            Some(state) => state.id == id && state.mode == QuickOpenMode::Files,
            None => false,
        };
        if !current {
            return ;
        }
        let entries = match result {
            Ok(files) => QuickOpenEntries::Ready(self.file_items(&root, &root_label, files)),
            Err(error) => QuickOpenEntries::Error(error),
        };
        if let Some(state) = &mut self.quick_open {
            state.entries = entries;
            state.selected = 0;
        }
        self.emit(Effect::PublishQuickOpen);
        self.notify();
        assert(self.effects@ =~= old(self).effects@ + seq![
            Effect::PublishQuickOpen,
            Effect::Redraw,
        ]);
    }
}

// ---------------------------------------------------------------------------
// Results
// ---------------------------------------------------------------------------
/// The query as it is compared: without space around it, in lower case.
pub open spec fn wanted_text(query: Seq<char>) -> Seq<char> {
    lowered(trimmed(query))
}

/// The more points, the smaller the key; nothing where the item does not match.
pub open spec fn result_keys(query: Seq<char>, items: Seq<QuickOpenItem>) -> Seq<Option<int>> {
    items.map_values(
        |item: QuickOpenItem|
            match score(wanted_text(query), item.search_key@) {
                Some(points) => Some(-points),
                None => None::<int>,
            },
    )
}

/// Every score of the query fits into 64 bits.
pub open spec fn scores_fit(query: Seq<char>, items: Seq<QuickOpenItem>) -> bool {
    forall|i: int|
        0 <= i < items.len() ==> score_fits(
            wanted_text(query).len() as int,
            encode_utf8((#[trigger] items[i]).search_key@).len() as int,
        )
}

impl QuickOpenState {
    /// Every score of the palette fits into 64 bits.
    pub open spec fn fits(&self) -> bool {
        self.entries matches QuickOpenEntries::Ready(items) ==> scores_fit(self.query@, items@)
    }

    /// How many results are shown: files only up to the limit.
    pub open spec fn limit(&self) -> int {
        match self.mode {
            QuickOpenMode::Navigation => usize::MAX as int,
            QuickOpenMode::Files => QUICK_OPEN_RESULT_LIMIT as int,
        }
    }

    /// The positions of the results: the items that match, the best first and
    /// those alike in their order, up to the limit.
    pub open spec fn is_result(&self, result: Seq<usize>) -> bool {
        match self.entries {
            QuickOpenEntries::Ready(items) => exists|order: Seq<usize>|
                #![trigger is_order(result_keys(self.query@, items@), order)]
                is_order(result_keys(self.query@, items@), order) && result == if order.len()
                    <= self.limit() {
                    order
                } else {
                    order.take(self.limit())
                },
            _ => result.len() == 0,
        }
    }

    /// Whether every score of the palette fits into 64 bits.
    pub fn scores_fit(&self) -> (result: bool)
        ensures
            result == self.fits(),
    {
        let items = match &self.entries {
            QuickOpenEntries::Ready(items) => items,
            _ => {
                return true;
            },
        };
        let query = lowercase(trim(self.query.as_str()).as_str());
        let length: usize = crate::text::characters(query.as_str()).len();
        let mut index: usize = 0;
        while index < items.len()
            invariant
                self.entries == QuickOpenEntries::Ready(*items),
                length == wanted_text(self.query@).len(),
                index <= items@.len(),
                forall|i: int|
                    0 <= i < index ==> score_fits(
                        wanted_text(self.query@).len() as int,
                        encode_utf8((#[trigger] items@[i]).search_key@).len() as int,
                    ),
            decreases items@.len() - index,
        {
            let candidate: usize = items[index].search_key.as_str().as_bytes().len();
            if !crate::scoring::score_is_small(length, candidate) {
                assert(!score_fits(
                    wanted_text(self.query@).len() as int,
                    encode_utf8(items@[index as int].search_key@).len() as int,
                ));
                return false;
            }
            index += 1;
        }
        true
    }

    /// The positions of the results.
    pub fn results(&self) -> (result: Vec<usize>)
        requires
            self.fits(),
        ensures
            self.is_result(result@),
            self.entries matches QuickOpenEntries::Ready(items) ==> forall|k: int|
                0 <= k < result@.len() ==> (#[trigger] result@[k]) < items@.len(),
    {
        let items = match &self.entries {
            QuickOpenEntries::Ready(items) => items,
            _ => {
                return Vec::new();
            },
        };
        let query = lowercase(trim(self.query.as_str()).as_str());
        let ghost wanted = result_keys(self.query@, items@);
        let mut keys: Vec<Option<i128>> = Vec::new();
        let mut index: usize = 0;
        while index < items.len()
            invariant
                self.entries == QuickOpenEntries::Ready(*items),
                query@ == wanted_text(self.query@),
                wanted == result_keys(self.query@, items@),
                scores_fit(self.query@, items@),
                index <= items@.len(),
                keys@.len() == index,
                forall|i: int| 0 <= i < index ==> key_values(keys@)[i] == #[trigger] wanted[i],
            decreases items@.len() - index,
        {
            let ghost before = keys@;
            let key: Option<i128> = match quick_open_score(
                query.as_str(),
                items[index].search_key.as_str(),
            ) {
                Some(points) => Some(-(points as i128)),
                None => None,
            };
            keys.push(key);
            proof {
                assert forall|i: int| 0 <= i <= index implies key_values(keys@)[i]
                    == #[trigger] wanted[i] by {
                    if i < index {
                        assert(key_values(before)[i] == wanted[i]);
                    }
                }
            }
            index += 1;
        }
        assert(key_values(keys@) =~= wanted);
        let mut order = order_by_key(&keys);
        let ghost full = order@;
        assert(is_order(result_keys(self.query@, self.entries->Ready_0@), full));
        let count: usize = order.len();
        if self.mode == QuickOpenMode::Files && count > QUICK_OPEN_RESULT_LIMIT {
            order.truncate(QUICK_OPEN_RESULT_LIMIT);
            assert(order@ =~= full.take(QUICK_OPEN_RESULT_LIMIT as int));
        }
        order
    }
}

/// What a palette shows is determined by its query and its items.
pub proof fn law_results_determined(state: QuickOpenState, a: Seq<usize>, b: Seq<usize>)
    requires
        state.is_result(a),
        state.is_result(b),
        state.entries matches QuickOpenEntries::Ready(items) ==> items@.len() <= usize::MAX,
    ensures
        a == b,
{
    if let QuickOpenEntries::Ready(items) = state.entries {
        let keys = result_keys(state.query@, items@);
        let first = choose|order: Seq<usize>|
            #![trigger is_order(keys, order)]
            is_order(keys, order) && a == if order.len() <= state.limit() {
                order
            } else {
                order.take(state.limit())
            };
        let second = choose|order: Seq<usize>|
            #![trigger is_order(keys, order)]
            is_order(keys, order) && b == if order.len() <= state.limit() {
                order
            } else {
                order.take(state.limit())
            };
        crate::ranking::law_order_unique(keys, first, second);
    } else {
        assert(a =~= b);
    }
}

/// A palette for navigation shows everything that matches, one for files never
/// more than the limit.
pub proof fn law_result_limit(state: QuickOpenState, result: Seq<usize>, at: int)
    requires
        state.is_result(result),
        state.entries is Ready,
        state.entries->Ready_0@.len() <= usize::MAX,
        0 <= at < state.entries->Ready_0@.len(),
    ensures
        state.mode == QuickOpenMode::Files ==> result.len() <= QUICK_OPEN_RESULT_LIMIT,
        state.mode == QuickOpenMode::Navigation && score(
            wanted_text(state.query@),
            state.entries->Ready_0@[at].search_key@,
        ) is Some ==> result.contains(at as usize),
{
    let items = state.entries->Ready_0;
    let keys = result_keys(state.query@, items@);
    let order = choose|order: Seq<usize>|
        #![trigger is_order(keys, order)]
        is_order(keys, order) && result == if order.len() <= state.limit() {
            order
        } else {
            order.take(state.limit())
        };
    if state.mode == QuickOpenMode::Navigation {
        lemma_order_short(keys, order);
        if score(wanted_text(state.query@), items@[at].search_key@) is Some {
            assert(keys[at] is Some);
        }
    }
}

/// An order holds no more positions than there are.
proof fn lemma_order_short(keys: Seq<Option<int>>, order: Seq<usize>)
    requires
        is_order(keys, order),
    ensures
        order.len() <= keys.len(),
{
    let positions = order.map_values(|at: usize| at as int);
    assert(positions.no_duplicates()) by {
        assert forall|j: int, k: int| 0 <= j < k < order.len() implies positions[j] != positions[k] by {
            assert(crate::ranking::comes_before(keys, order[j] as int, order[k] as int));
        }
    }
    positions.unique_seq_to_set();
    let range = vstd::set_lib::set_int_range(0, keys.len() as int);
    vstd::set_lib::lemma_int_range(0, keys.len() as int);
    assert(positions.to_set().subset_of(range)) by {
        assert forall|i: int| #[trigger] positions.to_set().contains(i) implies range.contains(i) by {
            let k = choose|k: int| 0 <= k < positions.len() && positions[k] == i;
            assert(order[k] < keys.len());
        }
    }
    vstd::set_lib::lemma_len_subset(positions.to_set(), range);
}

impl BlackholesApp {
    /// Every score of the open palette fits into 64 bits.
    pub open spec fn quick_open_fits(&self) -> bool {
        self.quick_open matches Some(state) ==> state.fits()
    }

    /// The positions of the results of the open palette.
    pub fn quick_open_results(&self) -> (result: Vec<usize>)
        requires
            self.quick_open_fits(),
        ensures
            match self.quick_open {
                Some(state) => {
                    &&& state.is_result(result@)
                    &&& state.entries matches QuickOpenEntries::Ready(items) ==> forall|k: int|
                        0 <= k < result@.len() ==> (#[trigger] result@[k]) < items@.len()
                },
                None => result@.len() == 0,
            },
    {
        match &self.quick_open {
            Some(state) => state.results(),
            None => Vec::new(),
        }
    }
}

// ---------------------------------------------------------------------------
// Opening, typing and closing
// ---------------------------------------------------------------------------
impl BlackholesApp {
    /// The requests that bring the palette up.
    pub open spec fn quick_open_shown(&self) -> Seq<Effect> {
        seq![
            Effect::PublishQuickOpen,
            Effect::ModalVisibility { visible: true },
            if self.has_workspace_webview {
                Effect::FocusWorkspace
            } else {
                Effect::FocusQuickOpen
            },
        ]
    }

    fn show_quick_open_overlay(&mut self)
        ensures
            Self::requests(*old(self), *final(self), old(self).quick_open_shown()),
    {
        self.emit(Effect::PublishQuickOpen);
        self.emit(Effect::ModalVisibility { visible: true });
        if self.has_workspace_webview {
            self.emit(Effect::FocusWorkspace);
        } else {
            self.emit(Effect::FocusQuickOpen);
        }
        assert(self.effects@ =~= old(self).effects@ + old(self).quick_open_shown());
    }

    /// `after` is `before` with the palette for projects, tasks and terminals open.
    pub open spec fn opens_navigation_palette(before: Self, after: Self) -> bool {
        &&& after.quick_open matches Some(state) && {
            &&& state.id == Self::next(before.next_quick_open_id)
            &&& state.mode == QuickOpenMode::Navigation
            &&& state.placeholder@ == before.text(
                "Search projects, tasks, agents and terminals…"@,
                "Buscar proyectos, tareas, agentes y terminales…"@,
            )
            &&& state.query@ == Seq::<char>::empty()
            &&& state.entries matches QuickOpenEntries::Ready(items) && navigation_items_show(
                before,
                items@,
            )
            &&& state.selected == 0
        }
        &&& after.effects@ == before.effects@ + before.quick_open_shown() + seq![Effect::Redraw]
        &&& after == (BlackholesApp {
            quick_open: after.quick_open,
            next_quick_open_id: Self::next(before.next_quick_open_id),
            effects: after.effects,
            ..before
        })
    }

    /// Opens the palette for projects, tasks and terminals.
    pub fn open_navigation_palette(&mut self)
        ensures
            Self::opens_navigation_palette(*old(self), *final(self)),
    {
        let entries = self.navigation_quick_open_items();
        self.next_quick_open_id = self.next_quick_open_id.wrapping_add(1);
        let placeholder = self.tr(
            "Search projects, tasks, agents and terminals…",
            "Buscar proyectos, tareas, agentes y terminales…",
        ).to_string();
        self.quick_open =
        Some(
            QuickOpenState {
                id: self.next_quick_open_id,
                mode: QuickOpenMode::Navigation,
                placeholder,
                query: String::new(),
                entries: QuickOpenEntries::Ready(entries),
                selected: 0,
            },
        );
        self.show_quick_open_overlay();
        self.notify();
    }

    /// `after` is `before` with the palette for the files of a repository open.
    pub open spec fn opens_file_palette(before: Self, after: Self, root: String, label: String) -> bool {
        let id = Self::next(before.next_quick_open_id);
        &&& after.quick_open matches Some(state) && {
            &&& state.id == id
            &&& state.mode == QuickOpenMode::Files
            &&& state.placeholder@ == before.text("Search files in"@, "Buscar archivos en"@) + " "@
                + label@ + "…"@
            &&& state.query@ == Seq::<char>::empty()
            &&& state.entries is Loading
            &&& state.selected == 0
        }
        &&& after.effects@ == before.effects@ + before.quick_open_shown() + seq![
            Effect::IndexFiles { open_id: id, root, root_label: label },
            Effect::Redraw,
        ]
        &&& after == (BlackholesApp {
            quick_open: after.quick_open,
            next_quick_open_id: id,
            effects: after.effects,
            ..before
        })
    }

    /// Opens the palette for the files of the selected repository; without one
    /// the user is told.
    pub fn open_file_palette(&mut self)
        ensures
            match old(self).repository_target() {
                Some((root, label)) => Self::opens_file_palette(
                    *old(self),
                    *final(self),
                    root,
                    label,
                ),
                None => Self::reports(
                    *old(self),
                    *final(self),
                    old(self).text(
                        "Select a repository before opening file search"@,
                        "Selecciona un repositorio antes de buscar archivos"@,
                    ),
                    true,
                ),
            },
    {
        let ghost before = *self;
        match self.selected_repository_target() {
            None => {
                let message = self.tr(
                    "Select a repository before opening file search",
                    "Selecciona un repositorio antes de buscar archivos",
                ).to_string();
                self.set_status(message, true);
            },
            Some((root, root_label)) => {
                self.next_quick_open_id = self.next_quick_open_id.wrapping_add(1);
                let open_id: u64 = self.next_quick_open_id;
                let placeholder = join4(
                    self.tr("Search files in", "Buscar archivos en"),
                    " ",
                    root_label.as_str(),
                    "…",
                );
                self.quick_open =
                Some(
                    QuickOpenState {
                        id: open_id,
                        mode: QuickOpenMode::Files,
                        placeholder,
                        query: String::new(),
                        entries: QuickOpenEntries::Loading,
                        selected: 0,
                    },
                );
                self.show_quick_open_overlay();
                self.emit(Effect::IndexFiles { open_id, root, root_label });
                self.notify();
                assert(self.effects@ =~= before.effects@ + before.quick_open_shown() + seq![
                    Effect::IndexFiles { open_id, root, root_label },
                    Effect::Redraw,
                ]);
            },
        }
    }

    /// The palette with the given identifier is open.
    pub open spec fn has_palette(&self, open_id: u64) -> bool {
        self.quick_open matches Some(state) && state.id == open_id
    }

    /// Whether the palette with the given identifier is open.
    pub fn palette_is_open(&self, open_id: u64) -> (result: bool)
        ensures
            result == self.has_palette(open_id),
    {
        match &self.quick_open {
            Some(state) => state.id == open_id,
            None => false,
        }
    }

    /// The state with another query in the palette and its first result selected.
    pub open spec fn with_query(self, query: String) -> Self {
        BlackholesApp {
            quick_open: Some(QuickOpenState { query, selected: 0, ..self.quick_open->0 }),
            ..self
        }
    }

    /// `after` is `before` with the query that the central surface sent.
    pub open spec fn changes_query(before: Self, after: Self, open_id: u64, query: String) -> bool {
        if before.has_palette(open_id) {
            Self::requests(before.with_query(query), after, seq![Effect::PublishQuickOpen])
        } else {
            after == before
        }
    }

    /// The query was typed into the palette of the central surface.
    pub fn change_quick_open_query(&mut self, open_id: u64, query: String)
        ensures
            Self::changes_query(*old(self), *final(self), open_id, query),
    {
        if !self.palette_is_open(open_id) {
            return ;
        }
        if let Some(state) = &mut self.quick_open {
            state.query = query;
            state.selected = 0;
        }
        self.emit(Effect::PublishQuickOpen);
    }

    /// The query was typed into the palette of the window.
    pub fn quick_open_input_changed(&mut self, open_id: u64, query: String)
        ensures
            if old(self).has_palette(open_id) {
                Self::requests(old(self).with_query(query), *final(self), seq![Effect::Redraw])
            } else {
                *final(self) == *old(self)
            },
    {
        if !self.palette_is_open(open_id) {
            return ;
        }
        if let Some(state) = &mut self.quick_open {
            state.query = query;
            state.selected = 0;
        }
        self.notify();
    }

    /// `after` is `before` with the palette closed.
    pub open spec fn closes_palette(before: Self, after: Self) -> bool {
        Self::requests(
            BlackholesApp { quick_open: None, ..before },
            after,
            seq![
                Effect::QuickOpenClosed,
                Effect::ModalVisibility { visible: false },
                Effect::Redraw,
            ],
        )
    }

    /// Closes the palette.
    pub fn close_quick_open(&mut self)
        ensures
            Self::closes_palette(*old(self), *final(self)),
    {
        self.quick_open = None;
        self.emit(Effect::QuickOpenClosed);
        self.emit(Effect::ModalVisibility { visible: false });
        self.notify();
        assert(self.effects@ =~= old(self).effects@ + seq![
            Effect::QuickOpenClosed,
            Effect::ModalVisibility { visible: false },
            Effect::Redraw,
        ]);
    }

    /// A click beside the palette of the window closes it.
    pub fn dismiss_quick_open_overlay(&mut self)
        ensures
            Self::requests(
                (BlackholesApp { quick_open: None, ..*old(self) }),
                *final(self),
                seq![Effect::Redraw],
            ),
    {
        self.quick_open = None;
        self.notify();
    }

    /// The selected result after moving by an offset among `count` results.
    pub open spec fn moved_selection(selected: usize, offset: int, count: nat) -> int {
        if count == 0 || selected + offset < 0 {
            0
        } else if selected + offset >= count {
            count - 1
        } else {
            selected + offset
        }
    }

    /// `after` is `before` with the selection moved by an offset, within the results.
    pub open spec fn moves_selection(before: Self, after: Self, offset: int) -> bool {
        match before.quick_open {
            None => after == before,
            Some(state) => exists|results: Seq<usize>| #[trigger]
                state.is_result(results) && Self::requests(
                    BlackholesApp {
                        quick_open: Some(
                            QuickOpenState {
                                selected: Self::moved_selection(
                                    state.selected,
                                    offset,
                                    results.len(),
                                ) as usize,
                                ..state
                            },
                        ),
                        ..before
                    },
                    after,
                    if results.len() == 0 {
                        seq![]
                    } else {
                        seq![Effect::Redraw]
                    },
                ),
        }
    }

    /// Moves the selection.
    pub fn move_quick_open_selection(&mut self, offset: isize)
        requires
            old(self).quick_open_fits(),
        ensures
            Self::moves_selection(*old(self), *final(self), offset as int),
    {
        let ghost before = *self;
        let results = self.quick_open_results();
        let count: usize = results.len();
        let mut found: bool = false;
        if let Some(state) = &mut self.quick_open {
            found = true;
            if count == 0 {
                state.selected = 0;
            } else if offset >= 0 {
                let forward: usize = offset as usize;
                state.selected =
                if state.selected > count - 1 || forward > count - 1 - state.selected {
                    count - 1
                } else {
                    state.selected + forward
                };
            } else {
                let back: usize = if offset == isize::MIN {
                    isize::MAX as usize + 1
                } else {
                    (-offset) as usize
                };
                state.selected =
                if state.selected <= back {
                    0
                } else if state.selected - back > count - 1 {
                    count - 1
                } else {
                    state.selected - back
                };
            }
        }
        if found && count > 0 {
            self.notify();
        } else {
            assert(self.effects@ =~= before.effects@ + Seq::<Effect>::empty());
        }
        proof {
            if before.quick_open is Some {
                let state = before.quick_open->0;
                assert(state.is_result(results@));
                assert(self.quick_open->0.selected == Self::moved_selection(
                    state.selected,
                    offset as int,
                    results@.len(),
                ));
            }
        }
    }

    /// A key was pressed in the palette; whether it was meant for it.
    pub fn handle_quick_open_key_down(&mut self, key: &str) -> (handled: bool)
        requires
            key@ == "up"@ || key@ == "arrowup"@ || key@ == "down"@ || key@ == "arrowdown"@
                ==> old(self).quick_open_fits(),
        ensures
            if key@ == "up"@ || key@ == "arrowup"@ {
                handled && Self::moves_selection(*old(self), *final(self), -1)
            } else if key@ == "down"@ || key@ == "arrowdown"@ {
                handled && Self::moves_selection(*old(self), *final(self), 1)
            } else if key@ == "escape"@ {
                handled && Self::closes_palette(*old(self), *final(self))
            } else {
                !handled && *final(self) == *old(self)
            },
    {
        if same_text(key, "up") || same_text(key, "arrowup") {
            self.move_quick_open_selection(-1);
            true
        } else if same_text(key, "down") || same_text(key, "arrowdown") {
            self.move_quick_open_selection(1);
            true
        } else if same_text(key, "escape") {
            self.close_quick_open();
            true
        } else {
            false
        }
    }
}

// ---------------------------------------------------------------------------
// What a palette shows
// ---------------------------------------------------------------------------
/// What stands in place of results, and whether it is an error.
pub open spec fn palette_status(app: BlackholesApp, state: QuickOpenState, results: nat) -> Option<
    Seq<char>,
> {
    match state.entries {
        QuickOpenEntries::Loading => Some(
            app.text("Indexing repository files…"@, "Indexando archivos del repositorio…"@),
        ),
        QuickOpenEntries::Error(error) => Some(error@),
        QuickOpenEntries::Ready(_) => if results == 0 {
            Some(app.text("No matching results"@, "No hay resultados"@))
        } else {
            None
        },
    }
}

pub open spec fn palette_shortcut(mode: QuickOpenMode) -> Seq<char> {
    match mode {
        QuickOpenMode::Navigation => "⌘O"@,
        QuickOpenMode::Files => "⌘P"@,
    }
}

pub open spec fn palette_footer(app: BlackholesApp, mode: QuickOpenMode) -> Seq<char> {
    match mode {
        QuickOpenMode::Navigation => app.text(
            "Projects · Tasks · Agents · Terminals"@,
            "Proyectos · Tareas · Agentes · Terminales"@,
        ),
        QuickOpenMode::Files => app.text(
            "Files from the selected repository"@,
            "Archivos del repositorio seleccionado"@,
        ),
    }
}

#[derive(Debug)]
pub struct QuickOpenResultView {
    pub title: String,
    pub subtitle: String,
    pub kind_label: String,
    pub icon: &'static str,
    pub color: String,
    pub terminal_provider: Option<AgentKind>,
}

pub open spec fn result_shows(item: QuickOpenItem, view: QuickOpenResultView) -> bool {
    &&& view.title@ == item.title@
    &&& view.subtitle@ == item.subtitle@
    &&& view.kind_label@ == item.kind_label@
    &&& view.icon@ == icon_code(item.icon)
    &&& view.color@ == item.color_css@
    &&& view.terminal_provider == item.terminal_provider
}

/// The palette as it is published.
#[derive(Debug)]
pub struct QuickOpenSnapshot {
    pub open_id: u64,
    pub full_width: bool,
    pub over_terminal: bool,
    pub query: String,
    pub placeholder: String,
    pub shortcut: &'static str,
    pub footer_label: &'static str,
    pub navigation_label: &'static str,
    pub status: Option<String>,
    pub error: bool,
    pub results: Vec<QuickOpenResultView>,
}

pub open spec fn snapshot_shows(app: BlackholesApp, state: QuickOpenState, view: QuickOpenSnapshot) -> bool {
    &&& view.open_id == state.id
    &&& view.full_width == app.surface.show_settings
    &&& view.over_terminal == app.surface.show_terminal
    &&& view.query@ == state.query@
    &&& view.placeholder@ == state.placeholder@
    &&& view.shortcut@ == palette_shortcut(state.mode)
    &&& view.footer_label@ == palette_footer(app, state.mode)
    &&& view.navigation_label@ == app.text(
        "↑↓ Navigate   ↵ Open   esc Close"@,
        "↑↓ Navegar   ↵ Abrir   esc Cerrar"@,
    )
    &&& view.error == state.entries is Error
    &&& exists|results: Seq<usize>| #[trigger]
        state.is_result(results) && {
            &&& crate::model::text_of(view.status) == palette_status(app, state, results.len())
            &&& view.results@.len() == results.len()
            &&& forall|k: int|
                0 <= k < results.len() ==> result_shows(
                    state.entries->Ready_0@[results[k] as int],
                    #[trigger] view.results@[k],
                )
        }
}

/// The palette in the window.
#[derive(Debug)]
pub struct QuickOpenPanel {
    pub mode: QuickOpenMode,
    pub message: Option<String>,
    pub message_color: u32,
    pub shortcut: &'static str,
    pub footer_label: &'static str,
    pub help: &'static str,
    pub rows: Vec<QuickOpenPanelRow>,
}

/// A result in the window: the item, and how it is drawn. The second line is
/// only there for files.
#[derive(Clone, Copy, Debug, PartialEq, Eq, Structural)]
pub struct QuickOpenPanelRow {
    pub item: usize,
    pub selected: bool,
    pub background: u32,
    pub with_subtitle: bool,
}

pub open spec fn panel_row(state: QuickOpenState, index: int, item: usize) -> QuickOpenPanelRow {
    QuickOpenPanelRow {
        item,
        selected: index == state.selected,
        background: if index == state.selected {
            0x353840
        } else {
            0x15171b
        },
        with_subtitle: state.mode == QuickOpenMode::Files,
    }
}

pub open spec fn panel_shows(app: BlackholesApp, state: QuickOpenState, view: QuickOpenPanel) -> bool {
    &&& view.mode == state.mode
    &&& view.message_color == if state.entries is Error {
        0xff7b72u32
    } else {
        0x8e97aau32
    }
    &&& view.shortcut@ == palette_shortcut(state.mode)
    &&& view.footer_label@ == palette_footer(app, state.mode)
    &&& view.help@ == "↑↓ Navegar   ↵ Abrir   esc Cerrar"@
    &&& exists|results: Seq<usize>| #[trigger]
        state.is_result(results) && {
            &&& crate::model::text_of(view.message) == palette_status(app, state, results.len())
            &&& view.rows@.len() == results.len()
            &&& forall|k: int|
                0 <= k < results.len() ==> #[trigger] view.rows@[k] == panel_row(
                    state,
                    k,
                    results[k],
                )
        }
}

impl BlackholesApp {
    fn palette_message(&self, state: &QuickOpenState, results: usize) -> (result: Option<String>)
        ensures
            crate::model::text_of(result) == palette_status(*self, *state, results as nat),
    {
        match &state.entries {
            QuickOpenEntries::Loading => Some(
                self.tr(
                    "Indexing repository files…",
                    "Indexando archivos del repositorio…",
                ).to_string(),
            ),
            QuickOpenEntries::Error(error) => Some(error.clone()),
            QuickOpenEntries::Ready(_) => if results == 0 {
                Some(self.tr("No matching results", "No hay resultados").to_string())
            } else {
                None
            },
        }
    }

    fn palette_labels(&self, mode: QuickOpenMode) -> (result: (&'static str, &'static str))
        ensures
            result.0@ == palette_shortcut(mode),
            result.1@ == palette_footer(*self, mode),
    {
        match mode {
            QuickOpenMode::Navigation => (
                "⌘O",
                self.tr(
                    "Projects · Tasks · Agents · Terminals",
                    "Proyectos · Tareas · Agentes · Terminales",
                ),
            ),
            QuickOpenMode::Files => (
                "⌘P",
                self.tr(
                    "Files from the selected repository",
                    "Archivos del repositorio seleccionado",
                ),
            ),
        }
    }

    /// The open palette as it is published, nothing where none is open.
    pub fn hydrate_quick_open_overlay(&self) -> (result: Option<QuickOpenSnapshot>)
        requires
            self.quick_open_fits(),
        ensures
            match (self.quick_open, result) {
                (Some(state), Some(view)) => snapshot_shows(*self, state, view),
                (None, None) => true,
                _ => false,
            },
    {
        let state = match &self.quick_open {
            Some(state) => state,
            None => {
                return None;
            },
        };
        let results = state.results();
        let mut views: Vec<QuickOpenResultView> = Vec::new();
        let mut error: bool = false;
        match &state.entries {
            QuickOpenEntries::Ready(items) => {
                let mut index: usize = 0;
                while index < results.len()
                    invariant
                        state.entries == QuickOpenEntries::Ready(*items),
                        index <= results@.len(),
                        views@.len() == index,
                        forall|k: int|
                            0 <= k < results@.len() ==> (#[trigger] results@[k]) < items@.len(),
                        forall|k: int|
                            0 <= k < index ==> result_shows(
                                state.entries->Ready_0@[results@[k] as int],
                                #[trigger] views@[k],
                            ),
                    decreases results@.len() - index,
                {
                    let item = &items[results[index]];
                    views.push(
                        QuickOpenResultView {
                            title: item.title.clone(),
                            subtitle: item.subtitle.clone(),
                            kind_label: item.kind_label.clone(),
                            icon: quick_open_icon_id(item.icon),
                            color: item.color_css.clone(),
                            terminal_provider: item.terminal_provider,
                        },
                    );
                    index += 1;
                }
            },
            QuickOpenEntries::Error(_) => {
                error = true;
            },
            QuickOpenEntries::Loading => {},
        }
        let (shortcut, footer_label) = self.palette_labels(state.mode);
        let view = QuickOpenSnapshot {
            open_id: state.id,
            full_width: self.surface.show_settings,
            over_terminal: self.surface.show_terminal,
            query: state.query.clone(),
            placeholder: state.placeholder.clone(),
            shortcut,
            footer_label,
            navigation_label: self.tr(
                "↑↓ Navigate   ↵ Open   esc Close",
                "↑↓ Navegar   ↵ Abrir   esc Cerrar",
            ),
            status: self.palette_message(state, results.len()),
            error,
            results: views,
        };
        assert(state.is_result(results@));
        Some(view)
    }

    /// The open palette in the window, nothing where none is open.
    pub fn render_quick_open(&self) -> (result: Option<QuickOpenPanel>)
        requires
            self.quick_open_fits(),
        ensures
            match (self.quick_open, result) {
                (Some(state), Some(view)) => panel_shows(*self, state, view),
                (None, None) => true,
                _ => false,
            },
    {
        let state = match &self.quick_open {
            Some(state) => state,
            None => {
                return None;
            },
        };
        let results = state.results();
        let files: bool = state.mode == QuickOpenMode::Files;
        let mut rows: Vec<QuickOpenPanelRow> = Vec::new();
        let mut index: usize = 0;
        while index < results.len()
            invariant
                files == (state.mode == QuickOpenMode::Files),
                index <= results@.len(),
                rows@.len() == index,
                forall|k: int|
                    0 <= k < index ==> #[trigger] rows@[k] == panel_row(*state, k, results@[k]),
            decreases results@.len() - index,
        {
            let selected: bool = index == state.selected;
            rows.push(
                QuickOpenPanelRow {
                    item: results[index],
                    selected,
                    background: if selected {
                        0x353840
                    } else {
                        0x15171b
                    },
                    with_subtitle: files,
                },
            );
            index += 1;
        }
        let (shortcut, footer_label) = self.palette_labels(state.mode);
        let view = QuickOpenPanel {
            mode: state.mode,
            message: self.palette_message(state, results.len()),
            message_color: match &state.entries {
                QuickOpenEntries::Error(_) => 0xff7b72,
                _ => 0x8e97aa,
            },
            shortcut,
            footer_label,
            help: "↑↓ Navegar   ↵ Abrir   esc Cerrar",
            rows,
        };
        assert(state.is_result(results@));
        Some(view)
    }
}

// ---------------------------------------------------------------------------
// What a palette promises
// ---------------------------------------------------------------------------
/// Every result matches the query; a better match stands first, and of two alike the
/// one that was listed first. An item that matches and is not shown is kept out by
/// enough others that match at least as well, and only among files.
pub proof fn law_results_ranked(state: QuickOpenState, result: Seq<usize>, items: Seq<QuickOpenItem>)
    requires
        state.is_result(result),
        state.entries matches QuickOpenEntries::Ready(entries) && entries@ == items,
        items.len() <= usize::MAX,
    ensures
        ({
            let points = |i: int| score(lowered(trimmed(state.query@)), items[i].search_key@);
            &&& forall|k: int|
                0 <= k < result.len() ==> (#[trigger] result[k]) < items.len() && points(
                    result[k] as int,
                ) is Some
            &&& forall|j: int, k: int|
                0 <= j < k < result.len() ==> {
                    ||| points(#[trigger] result[j] as int)->0 > points(
                        #[trigger] result[k] as int,
                    )->0
                    ||| points(result[j] as int)->0 == points(result[k] as int)->0 && result[j]
                        < result[k]
                }
            &&& forall|i: int|
                0 <= i < items.len() && score(
                    lowered(trimmed(state.query@)),
                    (#[trigger] items[i]).search_key@,
                ) is Some && !result.contains(i as usize) ==> {
                    &&& state.mode == QuickOpenMode::Files
                    &&& result.len() == QUICK_OPEN_RESULT_LIMIT
                    &&& forall|k: int|
                        0 <= k < result.len() ==> points(#[trigger] result[k] as int)->0 >= points(
                            i,
                        )->0
                }
        }),
{
    let keys = result_keys(state.query@, items);
    let order = choose|order: Seq<usize>|
        #![trigger is_order(keys, order)]
        is_order(keys, order) && result == if order.len() <= state.limit() {
            order
        } else {
            order.take(state.limit())
        };
    assert(is_order(keys, order));
    assert forall|k: int| 0 <= k < result.len() implies (#[trigger] result[k]) < items.len() && score(
        lowered(trimmed(state.query@)),
        items[result[k] as int].search_key@,
    ) is Some by {
        assert(result[k] == order[k]);
        assert(keys[order[k] as int] is Some);
    }
    assert forall|j: int, k: int| 0 <= j < k < result.len() implies ({
        let a = score(lowered(trimmed(state.query@)), items[#[trigger] result[j] as int].search_key@)->0;
        let b = score(lowered(trimmed(state.query@)), items[#[trigger] result[k] as int].search_key@)->0;
        a > b || (a == b && result[j] < result[k])
    }) by {
        assert(result[j] == order[j] && result[k] == order[k]);
        assert(crate::ranking::comes_before(keys, order[j] as int, order[k] as int));
        assert(keys[order[j] as int] is Some && keys[order[k] as int] is Some);
    }
    assert forall|i: int|
        0 <= i < items.len() && score(
            lowered(trimmed(state.query@)),
            (#[trigger] items[i]).search_key@,
        ) is Some && !result.contains(i as usize) implies state.mode == QuickOpenMode::Files
        && result.len() == QUICK_OPEN_RESULT_LIMIT && (forall|k: int|
        0 <= k < result.len() ==> score(
            lowered(trimmed(state.query@)),
            items[#[trigger] result[k] as int].search_key@,
        )->0 >= score(lowered(trimmed(state.query@)), items[i].search_key@)->0) by {
        assert(keys[i] is Some);
        assert(order.contains(i as usize));
        let at = choose|at: int| 0 <= at < order.len() && order[at] == i as usize;
        lemma_order_short(keys, order);
        if at < result.len() {
            assert(result[at] == i as usize);
        }
        assert forall|k: int| 0 <= k < result.len() implies score(
            lowered(trimmed(state.query@)),
            items[#[trigger] result[k] as int].search_key@,
        )->0 >= score(lowered(trimmed(state.query@)), items[i].search_key@)->0 by {
            assert(result[k] == order[k]);
            assert(crate::ranking::comes_before(keys, order[k] as int, order[at] as int));
            assert(keys[order[k] as int] is Some);
        }
    }
}

/// The item leads to the target, under the title, and is found by it.
pub open spec fn offers(item: QuickOpenItem, target: QuickOpenTarget, title: Seq<char>) -> bool {
    &&& item.target == target
    &&& item.title@ == title
    &&& exists|rest: Seq<char>| item.search_key@ == #[trigger] lowered(title + rest)
}

/// The palette for navigation offers every project, every task and every terminal,
/// and nothing else; nothing is typed yet and the first result is selected.
pub proof fn law_everything_reachable(before: BlackholesApp, after: BlackholesApp, at: int)
    requires
        BlackholesApp::opens_navigation_palette(before, after),
        before.session.terminals@.len() <= usize::MAX,
    ensures
        after.quick_open matches Some(state) && state.query@.len() == 0 && state.selected == 0
            && state.mode == QuickOpenMode::Navigation,
        after.quick_open->0.entries is Ready,
        ({
            let items = after.quick_open->0.entries->Ready_0@;
            &&& items.len() == before.workspaces@.len() + before.tasks@.len()
                + before.session.terminals@.len()
            &&& 0 <= at < before.workspaces@.len() ==> exists|i: int|
                0 <= i < items.len() && offers(
                    #[trigger] items[i],
                    QuickOpenTarget::Project { workspace_id: before.workspaces@[at].id },
                    before.workspaces@[at].label@,
                )
            &&& 0 <= at < before.tasks@.len() ==> exists|i: int|
                0 <= i < items.len() && offers(
                    #[trigger] items[i],
                    QuickOpenTarget::Task {
                        workspace_id: before.tasks@[at].workspace_id,
                        task_id: before.tasks@[at].id,
                    },
                    before.tasks@[at].title@,
                )
            &&& 0 <= at < before.session.terminals@.len() ==> exists|i: int|
                0 <= i < items.len() && offers(
                    #[trigger] items[i],
                    QuickOpenTarget::Terminal { terminal_id: before.session.terminals@[at].id },
                    before.session.terminals@[at].label@,
                )
        }),
        exists|i: int|
            before.effects@.len() <= i < after.effects@.len() && #[trigger] after.effects@[i]
                == Effect::PublishQuickOpen,
        exists|i: int|
            before.effects@.len() <= i < after.effects@.len() && #[trigger] after.effects@[i] == (
            Effect::ModalVisibility { visible: true }),
{
    let items = after.quick_open->0.entries->Ready_0@;
    let projects = before.workspaces@.len();
    let tasks = before.tasks@.len();
    let ranks = terminal_ranks(before);
    let order = choose|order: Seq<usize>|
        #![trigger is_order(terminal_ranks(before), order)]
        {
            &&& is_order(terminal_ranks(before), order)
            &&& order.len() == before.session.terminals@.len()
            &&& forall|i: int|
                projects + tasks <= i < items.len() ==> terminal_item_shows(
                    before,
                    before.session.terminals@[order[i - projects - tasks] as int],
                    #[trigger] items[i],
                )
        };
    if 0 <= at < projects {
        let project = before.workspaces@[at];
        assert(project_item_shows(before, project, items[at]));
        let rest = " "@ + project_subtitle(before, project);
        assert(project.label@ + " "@ + project_subtitle(before, project) =~= project.label@ + rest);
        assert(items[at].search_key@ == lowered(project.label@ + rest));
    }
    if 0 <= at < tasks {
        let task = before.tasks@[at];
        assert(task_item_shows(before, task, items[projects + at]));
        let rest = " "@ + task_subtitle(before, task);
        assert(task.title@ + " "@ + task_subtitle(before, task) =~= task.title@ + rest);
        assert(items[projects + at].search_key@ == lowered(task.title@ + rest));
    }
    if 0 <= at < before.session.terminals@.len() {
        let terminal = before.session.terminals@[at];
        assert(ranks[at] is Some);
        assert(order.contains(at as usize));
        let k = choose|k: int| 0 <= k < order.len() && order[k] == at as usize;
        let i = projects + tasks + k;
        assert(terminal_item_shows(before, terminal, items[i]));
        let subtitle = terminal_subtitle(before, terminal);
        let rest = " "@ + subtitle + terminal_words(terminal.agent);
        assert(terminal.label@ + " "@ + subtitle + terminal_words(terminal.agent)
            =~= terminal.label@ + rest);
        assert(items[i].search_key@ == lowered(terminal.label@ + rest));
    }
    let from = before.effects@.len() as int;
    assert(after.effects@[from] == Effect::PublishQuickOpen);
    assert(after.effects@[from + 1] == (Effect::ModalVisibility { visible: true }));
}

/// Every file that was indexed can be opened from the palette, and is found by its
/// path; what was typed stays. What was indexed for another palette changes nothing.
pub proof fn law_files_reachable(
    before: BlackholesApp,
    after: BlackholesApp,
    id: u64,
    root: String,
    root_label: String,
    result: Result<Vec<IndexedRepositoryFile>, String>,
    at: int,
)
    requires
        BlackholesApp::answers_index(before, after, id, root, root_label, result),
    ensures
        !(before.quick_open matches Some(state) && state.id == id && state.mode
            == QuickOpenMode::Files) ==> after == before,
        (before.quick_open matches Some(state) && state.id == id && state.mode
            == QuickOpenMode::Files) ==> {
            &&& after.quick_open matches Some(state) && state.query == before.quick_open->0.query
                && state.id == id && state.mode == QuickOpenMode::Files
            &&& match result {
                Ok(files) => {
                    &&& after.quick_open->0.entries matches QuickOpenEntries::Ready(items)
                    &&& items@.len() == files@.len()
                    &&& 0 <= at < files@.len() ==> items@[at].target == (QuickOpenTarget::File {
                        root,
                        root_label,
                        path: files@[at].path,
                    }) && items@[at].search_key@ == lowered(files@[at].relative_path@)
                        && items@[at].subtitle@ == files@[at].relative_path@
                },
                Err(error) => after.quick_open->0.entries == QuickOpenEntries::Error(error),
            }
            &&& BlackholesApp::asked(before, after).contains(Effect::PublishQuickOpen)
        },
{
    if before.awaits_index(id) {
        assert(BlackholesApp::asked(before, after)[0] == Effect::PublishQuickOpen);
        if let Ok(files) = result {
            if 0 <= at < files@.len() {
                let items = after.quick_open->0.entries->Ready_0@;
                assert(file_item_shows(before, root, root_label, files@[at], items[at]));
            }
        }
    }
}

/// What is typed into the open palette is its query, and the best result is selected;
/// typing into another one changes nothing.
pub proof fn law_query_typed(before: BlackholesApp, after: BlackholesApp, open_id: u64, query: String)
    requires
        BlackholesApp::changes_query(before, after, open_id, query),
    ensures
        (before.quick_open matches Some(state) && state.id == open_id) ==> {
            &&& after.quick_open matches Some(state) && state.query == query && state.selected == 0
                && state.entries == before.quick_open->0.entries && state.mode
                == before.quick_open->0.mode && state.id == open_id
            &&& after.effects@.last() == Effect::PublishQuickOpen
        },
        !(before.quick_open matches Some(state) && state.id == open_id) ==> after == before,
{
}

/// Moving within the results moves by the offset; at either end it stops. The query and
/// the items stay.
pub proof fn law_selection_moved(
    before: BlackholesApp,
    after: BlackholesApp,
    offset: int,
    results: Seq<usize>,
)
    requires
        BlackholesApp::moves_selection(before, after, offset),
        before.quick_open matches Some(state) && state.is_result(results),
        before.quick_open->0.entries matches QuickOpenEntries::Ready(items) ==> items@.len()
            <= usize::MAX,
    ensures
        after.quick_open is Some,
        after.quick_open->0.query == before.quick_open->0.query,
        after.quick_open->0.entries == before.quick_open->0.entries,
        ({
            let selected = before.quick_open->0.selected as int;
            let moved = after.quick_open->0.selected as int;
            &&& 0 <= selected + offset < results.len() && results.len() <= usize::MAX ==> moved
                == selected + offset
            &&& selected + offset < 0 ==> moved == 0
            &&& results.len() == 0 ==> moved == 0
            &&& 0 < results.len() <= selected + offset && results.len() <= usize::MAX ==> moved
                == results.len() - 1
        }),
{
    let state = before.quick_open->0;
    let chosen = choose|chosen: Seq<usize>| #[trigger]
        state.is_result(chosen) && BlackholesApp::requests(
            BlackholesApp {
                quick_open: Some(
                    QuickOpenState {
                        selected: BlackholesApp::moved_selection(
                            state.selected,
                            offset,
                            chosen.len(),
                        ) as usize,
                        ..state
                    },
                ),
                ..before
            },
            after,
            if chosen.len() == 0 {
                seq![]
            } else {
                seq![Effect::Redraw]
            },
        );
    law_results_determined(state, chosen, results);
}

/// The palette for files is open and empty until the files of the selected repository
/// are indexed for it.
pub proof fn law_file_palette_opened(
    before: BlackholesApp,
    after: BlackholesApp,
    root: String,
    label: String,
)
    requires
        BlackholesApp::opens_file_palette(before, after, root, label),
    ensures
        after.quick_open matches Some(state) && state.mode == QuickOpenMode::Files
            && state.entries is Loading && state.query@.len() == 0 && state.selected == 0,
        BlackholesApp::asked(before, after).contains(
            Effect::IndexFiles { open_id: after.quick_open->0.id, root, root_label: label },
        ),
        BlackholesApp::asked(before, after).contains(Effect::ModalVisibility { visible: true }),
{
    assert(BlackholesApp::asked(before, after)[3] is IndexFiles);
    assert(BlackholesApp::asked(before, after)[1] is ModalVisibility);
}

/// A palette that is closed is gone, and what lies under it is there again.
pub proof fn law_palette_closed(before: BlackholesApp, after: BlackholesApp)
    requires
        BlackholesApp::closes_palette(before, after),
    ensures
        after.quick_open is None,
        after.surface == before.surface,
        after.session == before.session,
        BlackholesApp::asked(before, after).contains(Effect::ModalVisibility { visible: false }),
        BlackholesApp::asked(before, after).contains(Effect::QuickOpenClosed),
{
    assert(BlackholesApp::asked(before, after)[0] is QuickOpenClosed);
    assert(BlackholesApp::asked(before, after)[1] is ModalVisibility);
}

/// The palette that is published is the one that is open, with the query as it
/// was typed; it says that it failed exactly where it did, and why, and bears no
/// word where it has results to show.
pub proof fn law_palette_published(
    app: BlackholesApp,
    state: QuickOpenState,
    view: QuickOpenSnapshot,
)
    requires
        snapshot_shows(app, state, view),
    ensures
        view.open_id == state.id,
        view.query@ == state.query@,
        view.error <==> state.entries is Error,
        state.entries matches QuickOpenEntries::Error(error) ==> (view.status matches Some(status)
            && status@ == error@),
        state.entries is Loading ==> view.status is Some,
        state.entries is Ready ==> (view.status is None <==> view.results@.len() > 0),
{
}

} // verus!
