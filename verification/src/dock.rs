//! Docks: the terminal tabs of a project, task or repository, each a tree of
//! split panels.
use vstd::prelude::*;
use vstd::string::*;

use crate::ids::{contains_id, other_than, without_id, Id};
use crate::search::{first_where, lemma_filter_step, lemma_first_where, position};

verus! {

#[derive(Clone, Copy, Debug, PartialEq, Eq, Structural)]
pub enum DockAxis {
    Horizontal,
    Vertical,
}

/// A tree of panels. `ratio_bits` is the bit pattern of a split's ratio.
#[derive(Debug)]
pub enum DockNode {
    Panel { terminal_id: Id },
    Split { axis: DockAxis, ratio_bits: u32, first: Box<DockNode>, second: Box<DockNode> },
}

#[derive(Debug)]
pub struct DockTab {
    pub id: Id,
    pub title: String,
    pub root: DockNode,
    pub active_terminal_id: Id,
}

#[derive(Debug)]
pub struct Dock {
    pub tabs: Vec<DockTab>,
    pub active_tab_id: Option<Id>,
}

/// What a dock belongs to: a project, one of its tasks, or a repository of either.
#[derive(Clone, Copy, Debug, PartialEq, Eq, Structural)]
pub struct DockKey {
    pub workspace_id: Id,
    pub task_id: Option<Id>,
    pub repository_id: Option<Id>,
}

/// A dock under its key. A session holds one entry for each key.
#[derive(Debug)]
pub struct DockEntry {
    pub key: DockKey,
    pub dock: Dock,
}

impl DockKey {
    /// The key names the identifier.
    pub open spec fn names(self, id: Id) -> bool {
        self.workspace_id == id || self.task_id == Some(id) || self.repository_id == Some(id)
    }
}

// ---------------------------------------------------------------------------
// Trees of panels
// ---------------------------------------------------------------------------
/// The terminals of a tree, from the first panel to the last.
pub open spec fn leaves(node: DockNode) -> Seq<Id>
    decreases node,
{
    match node {
        DockNode::Panel { terminal_id } => seq![terminal_id],
        DockNode::Split { first, second, .. } => leaves(*first) + leaves(*second),
    }
}

/// A tree without the panels of a terminal: a split that loses one side becomes
/// the other, and nothing is left of a tree that loses all of its panels.
pub open spec fn pruned(node: DockNode, terminal_id: Id) -> Option<DockNode>
    decreases node,
{
    match node {
        DockNode::Panel { terminal_id: current } => if current == terminal_id {
            None
        } else {
            Some(node)
        },
        DockNode::Split { axis, ratio_bits, first, second } => match (
            pruned(*first, terminal_id),
            pruned(*second, terminal_id),
        ) {
            (Some(first), Some(second)) => Some(
                DockNode::Split {
                    axis,
                    ratio_bits,
                    first: Box::new(first),
                    second: Box::new(second),
                },
            ),
            (Some(first), None) => Some(first),
            (None, second) => second,
        },
    }
}

/// Pruning keeps the other terminals in order; nothing is left exactly where
/// there were no others.
pub proof fn law_pruned_leaves(node: DockNode, terminal_id: Id)
    ensures
        match pruned(node, terminal_id) {
            Some(rest) => {
                &&& leaves(rest) == without_id(leaves(node), terminal_id)
                &&& leaves(rest).len() > 0
                &&& !leaves(rest).contains(terminal_id)
            },
            None => without_id(leaves(node), terminal_id).len() == 0,
        },
    decreases node,
{
    let keep = other_than(terminal_id);
    reveal(Seq::filter);
    match node {
        DockNode::Panel { terminal_id: current } => {
            let one = seq![current];
            assert(one.drop_last() =~= Seq::<Id>::empty());
            assert(Seq::<Id>::empty().filter(keep) =~= Seq::<Id>::empty());
            if current != terminal_id {
                assert(one.filter(keep) =~= one);
            }
        },
        DockNode::Split { first, second, .. } => {
            law_pruned_leaves(*first, terminal_id);
            law_pruned_leaves(*second, terminal_id);
            Seq::filter_distributes_over_add(leaves(*first), leaves(*second), keep);
            let (a, b) = (
                without_id(leaves(*first), terminal_id),
                without_id(leaves(*second), terminal_id),
            );
            if a.len() == 0 {
                assert(a + b =~= b);
            }
            if b.len() == 0 {
                assert(a + b =~= a);
            }
            assert forall|i: int| 0 <= i < (a + b).len() implies (a + b)[i] != terminal_id by {
                if i < a.len() {
                    assert(a.contains(a[i]));
                } else {
                    assert(b.contains(b[i - a.len()]));
                }
            }
        },
    }
}

/// A tree has a panel.
pub proof fn lemma_leaves_nonempty(node: DockNode)
    ensures
        leaves(node).len() > 0,
    decreases node,
{
    if let DockNode::Split { first, second, .. } = node {
        lemma_leaves_nonempty(*first);
    }
}

impl DockNode {
    /// Appends the terminals of the tree to `ids`, from the first panel to the last.
    pub fn terminal_ids(&self, ids: &mut Vec<Id>)
        ensures
            final(ids)@ == old(ids)@ + leaves(*self),
        decreases self,
    {
        match self {
            DockNode::Panel { terminal_id } => {
                ids.push(*terminal_id);
            },
            DockNode::Split { first, second, .. } => {
                first.terminal_ids(ids);
                second.terminal_ids(ids);
                assert(ids@ =~= old(ids)@ + (leaves(**first) + leaves(**second)));
            },
        }
    }
}

/// The terminals of a tree.
pub fn terminals_in(node: &DockNode) -> (result: Vec<Id>)
    ensures
        result@ == leaves(*node),
{
    let mut ids: Vec<Id> = Vec::new();
    node.terminal_ids(&mut ids);
    assert(ids@ =~= leaves(*node));
    ids
}

/// Removes the panels of a terminal from a tree.
pub fn remove_terminal_node(node: DockNode, terminal_id: Id) -> (result: Option<DockNode>)
    ensures
        result == pruned(node, terminal_id),
    decreases node,
{
    match node {
        DockNode::Panel { terminal_id: current } => if current == terminal_id {
            None
        } else {
            Some(DockNode::Panel { terminal_id: current })
        },
        DockNode::Split { axis, ratio_bits, first, second } => {
            let first = remove_terminal_node(*first, terminal_id);
            let second = remove_terminal_node(*second, terminal_id);
            match (first, second) {
                (Some(first), Some(second)) => Some(
                    DockNode::Split {
                        axis,
                        ratio_bits,
                        first: Box::new(first),
                        second: Box::new(second),
                    },
                ),
                (Some(first), None) => Some(first),
                (None, second) => second,
            }
        },
    }
}

// ---------------------------------------------------------------------------
// Closing a terminal
// ---------------------------------------------------------------------------
/// A tab without a terminal: the panel that was active stays active where it is
/// still there, else the first panel becomes active.
pub open spec fn tab_without(tab: DockTab, terminal_id: Id) -> DockTab {
    match pruned(tab.root, terminal_id) {
        Some(root) => DockTab {
            root,
            active_terminal_id: if leaves(root).contains(tab.active_terminal_id) {
                tab.active_terminal_id
            } else {
                leaves(root)[0]
            },
            ..tab
        },
        None => tab,
    }
}

pub open spec fn without_terminal(terminal_id: Id) -> spec_fn(DockTab) -> DockTab {
    |tab: DockTab| tab_without(tab, terminal_id)
}

/// The tab shows nothing but the terminal.
pub open spec fn emptied_by(terminal_id: Id) -> spec_fn(DockTab) -> bool {
    |tab: DockTab| pruned(tab.root, terminal_id) is None
}

pub open spec fn tab_ids(tabs: Seq<DockTab>) -> Seq<Id> {
    tabs.map_values(|tab: DockTab| tab.id)
}

/// The tabs that are not under one of the identifiers.
pub open spec fn outside(ids: Seq<Id>) -> spec_fn(DockTab) -> bool {
    |tab: DockTab| !ids.contains(tab.id)
}

/// The identifiers of the tabs that closing a terminal leaves empty.
pub open spec fn emptied_ids(tabs: Seq<DockTab>, terminal_id: Id) -> Seq<Id> {
    tab_ids(tabs.filter(emptied_by(terminal_id)))
}

/// A dock after a terminal closed: its panels are gone, tabs left empty are
/// gone, and where the active tab is gone the last one left is active.
pub open spec fn closed_in(before: Dock, after: Dock, terminal_id: Id) -> bool {
    let emptied = emptied_ids(before.tabs@, terminal_id);
    &&& after.tabs@ == before.tabs@.map_values(without_terminal(terminal_id)).filter(
        outside(emptied),
    )
    &&& after.active_tab_id == match before.active_tab_id {
        Some(id) if emptied.contains(id) => if after.tabs@.len() > 0 {
            Some(after.tabs@.last().id)
        } else {
            None
        },
        active => active,
    }
}

/// Removes a terminal from a dock.
pub fn close_in_dock(dock: &mut Dock, terminal_id: Id)
    ensures
        closed_in(*old(dock), *final(dock), terminal_id),
{
    let ghost before = dock.tabs@;
    let mut tabs: Vec<DockTab> = Vec::new();
    std::mem::swap(&mut tabs, &mut dock.tabs);
    let mut emptied: Vec<Id> = Vec::new();
    let mut pruned_tabs: Vec<DockTab> = Vec::new();
    let ghost gone = emptied_by(terminal_id);
    assert(before.take(0) =~= Seq::<DockTab>::empty());
    assert(tab_ids(before.take(0).filter(gone)) =~= Seq::<Id>::empty());
    while tabs.len() > 0
        invariant
            gone == emptied_by(terminal_id),
            tabs@.len() <= before.len(),
            tabs@ == before.skip(before.len() - tabs@.len()),
            emptied@ == emptied_ids(before.take(before.len() - tabs@.len()), terminal_id),
            pruned_tabs@ == kept_tabs(before.take(before.len() - tabs@.len()), terminal_id),
        decreases tabs@.len(),
    {
        let ghost done = before.len() - tabs@.len();
        let tab = tabs.remove(0);
        proof {
            lemma_filter_step(before, gone, done);
            lemma_kept_step(before, terminal_id, done);
            assert(tab == before[done]);
            assert(tabs@ =~= before.skip(done + 1));
            let so_far = before.take(done).filter(gone);
            assert(tab_ids(so_far.push(tab)) =~= tab_ids(so_far).push(tab.id));
        }
        let DockTab { id, title, root, active_terminal_id } = tab;
        match remove_terminal_node(root, terminal_id) {
            Some(root) => {
                let ids = terminals_in(&root);
                proof {
                    lemma_leaves_nonempty(root);
                }
                let active: Id = if contains_id(&ids, active_terminal_id) {
                    active_terminal_id
                } else {
                    ids[0]
                };
                pruned_tabs.push(DockTab { id, title, root, active_terminal_id: active });
            },
            None => {
                emptied.push(id);
            },
        }
    }
    assert(before.take(before.len() as int) =~= before);
    let ghost survivors = pruned_tabs@;
    let mut kept: Vec<DockTab> = Vec::new();
    let ghost outside_emptied = outside(emptied@);
    assert(survivors.take(0).filter(outside_emptied) =~= Seq::<DockTab>::empty());
    while pruned_tabs.len() > 0
        invariant
            outside_emptied == outside(emptied@),
            pruned_tabs@.len() <= survivors.len(),
            pruned_tabs@ == survivors.skip(survivors.len() - pruned_tabs@.len()),
            kept@ == survivors.take(survivors.len() - pruned_tabs@.len()).filter(outside_emptied),
        decreases pruned_tabs@.len(),
    {
        let ghost done = survivors.len() - pruned_tabs@.len();
        let tab = pruned_tabs.remove(0);
        proof {
            lemma_filter_step(survivors, outside_emptied, done);
            assert(tab == survivors[done]);
            assert(pruned_tabs@ =~= survivors.skip(done + 1));
        }
        if !contains_id(&emptied, tab.id) {
            kept.push(tab);
        }
    }
    assert(survivors.take(survivors.len() as int) =~= survivors);
    proof {
        assert forall|i: int|
            0 <= i < before.len() && pruned((#[trigger] before[i]).root, terminal_id) is None implies emptied@.contains(
            before[i].id,
        ) by {
            let emptied_tabs = before.filter(gone);
            before.lemma_filter_contains(gone, i);
            let at = choose|at: int| 0 <= at < emptied_tabs.len() && emptied_tabs[at] == before[i];
            assert(tab_ids(emptied_tabs)[at] == before[i].id);
        }
        lemma_kept_outside(before, terminal_id, emptied@);
    }
    dock.tabs = kept;
    if let Some(id) = dock.active_tab_id {
        if contains_id(&emptied, id) {
            let count: usize = dock.tabs.len();
            dock.active_tab_id = if count > 0 {
                Some(dock.tabs[count - 1].id)
            } else {
                None
            };
        }
    }
}

/// The tabs that closing a terminal does not leave empty, each without it.
spec fn kept_tabs(tabs: Seq<DockTab>, terminal_id: Id) -> Seq<DockTab>
    decreases tabs.len(),
{
    if tabs.len() == 0 {
        Seq::empty()
    } else if pruned(tabs.last().root, terminal_id) is None {
        kept_tabs(tabs.drop_last(), terminal_id)
    } else {
        kept_tabs(tabs.drop_last(), terminal_id).push(tab_without(tabs.last(), terminal_id))
    }
}

proof fn lemma_kept_step(tabs: Seq<DockTab>, terminal_id: Id, index: int)
    requires
        0 <= index < tabs.len(),
    ensures
        kept_tabs(tabs.take(index + 1), terminal_id) == if pruned(tabs[index].root, terminal_id) is None {
            kept_tabs(tabs.take(index), terminal_id)
        } else {
            kept_tabs(tabs.take(index), terminal_id).push(tab_without(tabs[index], terminal_id))
        },
{
    assert(tabs.take(index + 1).drop_last() =~= tabs.take(index));
}

/// Dropping the emptied tabs first makes no difference: their identifiers are
/// among those that are dropped.
proof fn lemma_kept_outside(tabs: Seq<DockTab>, terminal_id: Id, ids: Seq<Id>)
    requires
        forall|i: int|
            0 <= i < tabs.len() && pruned((#[trigger] tabs[i]).root, terminal_id) is None
                ==> ids.contains(tabs[i].id),
    ensures
        kept_tabs(tabs, terminal_id).filter(outside(ids)) == tabs.map_values(
            without_terminal(terminal_id),
        ).filter(outside(ids)),
    decreases tabs.len(),
{
    let keep = outside(ids);
    let step = without_terminal(terminal_id);
    reveal(Seq::filter);
    if tabs.len() > 0 {
        let front = tabs.drop_last();
        assert forall|i: int|
            0 <= i < front.len() && pruned((#[trigger] front[i]).root, terminal_id) is None implies ids.contains(
            front[i].id,
        ) by {
            assert(front[i] == tabs[i]);
        }
        lemma_kept_outside(front, terminal_id, ids);
        assert(tabs.map_values(step) =~= front.map_values(step).push(step(tabs.last())));
        front.map_values(step).lemma_filter_push(step(tabs.last()), keep);
        if pruned(tabs.last().root, terminal_id) is Some {
            kept_tabs(front, terminal_id).lemma_filter_push(tab_without(tabs.last(), terminal_id), keep);
        } else {
            assert(ids.contains(tabs[tabs.len() - 1].id));
        }
    } else {
        assert(tabs.map_values(step) =~= Seq::<DockTab>::empty());
    }
}

// ---------------------------------------------------------------------------
// The docks of a session
// ---------------------------------------------------------------------------
pub open spec fn entry_is(key: DockKey) -> spec_fn(DockEntry) -> bool {
    |entry: DockEntry| entry.key == key
}

pub open spec fn dock_at(docks: Seq<DockEntry>, key: DockKey) -> Option<int> {
    first_where(docks, entry_is(key), 0)
}

/// No key stands twice.
pub open spec fn unique_keys(docks: Seq<DockEntry>) -> bool {
    forall|i: int, j: int|
        0 <= i < docks.len() && 0 <= j < docks.len() && i != j ==> (#[trigger] docks[i]).key != (
        #[trigger] docks[j]).key
}

/// The dock under a key.
pub fn find_dock(docks: &Vec<DockEntry>, key: DockKey) -> (result: Option<usize>)
    ensures
        position(result) == dock_at(docks@, key),
        result matches Some(at) ==> at < docks@.len() && docks@[at as int].key == key,
{
    let mut index: usize = 0;
    while index < docks.len()
        invariant
            index <= docks@.len(),
            dock_at(docks@, key) == first_where(docks@, entry_is(key), index as int),
        decreases docks@.len() - index,
    {
        if docks[index].key == key {
            return Some(index);
        }
        index += 1;
    }
    None
}

pub open spec fn tab_is(id: Id) -> spec_fn(DockTab) -> bool {
    |tab: DockTab| tab.id == id
}

/// The tab that is in front: the active one, or the last where none is active.
pub open spec fn front_tab(dock: Dock) -> Option<int> {
    match dock.active_tab_id {
        Some(id) => first_where(dock.tabs@, tab_is(id), 0),
        None => if dock.tabs@.len() > 0 {
            first_where(dock.tabs@, tab_is(dock.tabs@.last().id), 0)
        } else {
            None
        },
    }
}

/// The terminal in front under a key.
pub open spec fn front_terminal(docks: Seq<DockEntry>, key: DockKey) -> Option<Id> {
    match dock_at(docks, key) {
        None => None,
        Some(at) => match front_tab(docks[at].dock) {
            None => None,
            Some(tab) => Some(docks[at].dock.tabs@[tab].active_terminal_id),
        },
    }
}

fn find_tab(tabs: &Vec<DockTab>, id: Id) -> (result: Option<usize>)
    ensures
        position(result) == first_where(tabs@, tab_is(id), 0),
        result matches Some(at) ==> at < tabs@.len(),
{
    let mut index: usize = 0;
    while index < tabs.len()
        invariant
            index <= tabs@.len(),
            first_where(tabs@, tab_is(id), 0) == first_where(tabs@, tab_is(id), index as int),
        decreases tabs@.len() - index,
    {
        if tabs[index].id == id {
            return Some(index);
        }
        index += 1;
    }
    None
}

/// The terminal in front under a key.
pub fn terminal_in_front(docks: &Vec<DockEntry>, key: DockKey) -> (result: Option<Id>)
    ensures
        result == front_terminal(docks@, key),
{
    let at: usize = match find_dock(docks, key) {
        Some(at) => at,
        None => {
            return None;
        },
    };
    let dock = &docks[at].dock;
    let count: usize = dock.tabs.len();
    let wanted: Id = match dock.active_tab_id {
        Some(id) => id,
        None => {
            if count == 0 {
                return None;
            }
            dock.tabs[count - 1].id
        },
    };
    match find_tab(&dock.tabs, wanted) {
        Some(tab) => Some(dock.tabs[tab].active_terminal_id),
        None => None,
    }
}

/// The docks after a terminal closed.
pub open spec fn closed_everywhere(
    before: Seq<DockEntry>,
    after: Seq<DockEntry>,
    terminal_id: Id,
) -> bool {
    &&& after.len() == before.len()
    &&& forall|i: int|
        0 <= i < before.len() ==> {
            &&& (#[trigger] after[i]).key == before[i].key
            &&& closed_in(before[i].dock, after[i].dock, terminal_id)
        }
}

/// Removes a terminal from every dock.
pub fn close_in_docks(docks: &mut Vec<DockEntry>, terminal_id: Id)
    ensures
        closed_everywhere(old(docks)@, final(docks)@, terminal_id),
{
    let mut index: usize = 0;
    while index < docks.len()
        invariant
            index <= docks@.len(),
            docks@.len() == old(docks)@.len(),
            forall|i: int|
                0 <= i < index ==> {
                    &&& (#[trigger] docks@[i]).key == old(docks)@[i].key
                    &&& closed_in(old(docks)@[i].dock, docks@[i].dock, terminal_id)
                },
            forall|i: int| index <= i < docks@.len() ==> docks@[i] == old(docks)@[i],
        decreases docks@.len() - index,
    {
        close_in_dock(&mut docks[index].dock, terminal_id);
        index += 1;
    }
}

/// A tab shows its active terminal, and the active tab is there.
pub open spec fn dock_is_consistent(dock: Dock) -> bool {
    &&& forall|i: int|
        0 <= i < dock.tabs@.len() ==> leaves((#[trigger] dock.tabs@[i]).root).contains(
            dock.tabs@[i].active_terminal_id,
        )
    &&& dock.active_tab_id matches Some(id) ==> tab_ids(dock.tabs@).contains(id)
}

/// A terminal that closed stands in no tab of the dock, and a consistent dock
/// stays consistent.
pub proof fn law_close_in_dock(before: Dock, after: Dock, terminal_id: Id)
    requires
        closed_in(before, after, terminal_id),
    ensures
        forall|i: int|
            0 <= i < after.tabs@.len() ==> !leaves((#[trigger] after.tabs@[i]).root).contains(
                terminal_id,
            ),
        dock_is_consistent(before) ==> dock_is_consistent(after),
{
    let step = without_terminal(terminal_id);
    let mapped = before.tabs@.map_values(step);
    let emptied = emptied_ids(before.tabs@, terminal_id);
    let keep = outside(emptied);
    let gone = emptied_by(terminal_id);
    assert forall|i: int| 0 <= i < after.tabs@.len() implies {
        &&& !leaves((#[trigger] after.tabs@[i]).root).contains(terminal_id)
        &&& leaves(after.tabs@[i].root).contains(after.tabs@[i].active_terminal_id)
    } by {
        mapped.lemma_filter_pred(keep, i);
        mapped.lemma_filter_contains_rev(keep, after.tabs@[i]);
        let at = choose|at: int| 0 <= at < mapped.len() && mapped[at] == after.tabs@[i];
        let source = before.tabs@[at];
        if pruned(source.root, terminal_id) is None {
            before.tabs@.lemma_filter_contains(gone, at);
            let emptied_tabs = before.tabs@.filter(gone);
            let found = choose|found: int|
                0 <= found < emptied_tabs.len() && emptied_tabs[found] == source;
            assert(tab_ids(emptied_tabs)[found] == source.id);
            assert(emptied.contains(source.id));
        }
        law_pruned_leaves(source.root, terminal_id);
        let rest = pruned(source.root, terminal_id)->0;
        assert(leaves(rest).contains(leaves(rest)[0]));
    }
    if dock_is_consistent(before) {
        if let Some(id) = before.active_tab_id {
            if emptied.contains(id) {
                if after.tabs@.len() > 0 {
                    assert(tab_ids(after.tabs@)[after.tabs@.len() - 1] == after.tabs@.last().id);
                }
            } else {
                let at = choose|at: int|
                    0 <= at < tab_ids(before.tabs@).len() && tab_ids(before.tabs@)[at] == id;
                assert(mapped[at].id == id);
                mapped.lemma_filter_contains(keep, at);
                let found = choose|found: int|
                    0 <= found < after.tabs@.len() && after.tabs@[found] == mapped[at];
                assert(tab_ids(after.tabs@)[found] == id);
            }
        }
    }
}

// ---------------------------------------------------------------------------
// Opening, focusing and naming tabs
// ---------------------------------------------------------------------------
/// A dock with one tab more, which is active.
pub open spec fn dock_with_tab(before: Seq<DockTab>, after: Dock, tab: DockTab) -> bool {
    &&& after.tabs@ == before.push(tab)
    &&& after.active_tab_id == Some(tab.id)
}

/// The docks after a tab opened under a key: in the dock of the key, or in a
/// new one where there was none.
pub open spec fn tab_opened(
    before: Seq<DockEntry>,
    after: Seq<DockEntry>,
    key: DockKey,
    tab: DockTab,
) -> bool {
    match dock_at(before, key) {
        Some(at) => {
            &&& after.len() == before.len()
            &&& after[at].key == key
            &&& dock_with_tab(before[at].dock.tabs@, after[at].dock, tab)
            &&& forall|i: int| 0 <= i < before.len() && i != at ==> after[i] == before[i]
        },
        None => {
            &&& after.len() == before.len() + 1
            &&& after.last().key == key
            &&& dock_with_tab(Seq::empty(), after.last().dock, tab)
            &&& forall|i: int| 0 <= i < before.len() ==> after[i] == before[i]
        },
    }
}

/// Opens a tab under a key.
pub fn open_tab(docks: &mut Vec<DockEntry>, key: DockKey, tab: DockTab)
    ensures
        tab_opened(old(docks)@, final(docks)@, key, tab),
{
    let id: Id = tab.id;
    match find_dock(docks, key) {
        Some(at) => {
            docks[at].dock.tabs.push(tab);
            docks[at].dock.active_tab_id = Some(id);
        },
        None => {
            let mut tabs: Vec<DockTab> = Vec::new();
            tabs.push(tab);
            docks.push(DockEntry { key, dock: Dock { tabs, active_tab_id: Some(id) } });
        },
    }
}

/// Opening a tab leaves one dock for each key.
pub proof fn law_one_dock_for_each_key(
    before: Seq<DockEntry>,
    after: Seq<DockEntry>,
    key: DockKey,
    tab: DockTab,
)
    requires
        unique_keys(before),
        tab_opened(before, after, key, tab),
    ensures
        unique_keys(after),
{
    lemma_first_where(before, entry_is(key), 0);
    assert forall|i: int, j: int|
        0 <= i < after.len() && 0 <= j < after.len() && i != j implies (#[trigger] after[i]).key != (
    #[trigger] after[j]).key by {
        if i < before.len() && j < before.len() {
            assert(before[i].key != before[j].key);
            assert(after[i].key == before[i].key);
            assert(after[j].key == before[j].key);
        }
    }
}

/// The tab shows the terminal.
pub open spec fn shows(terminal_id: Id) -> spec_fn(DockTab) -> bool {
    |tab: DockTab| leaves(tab.root).contains(terminal_id)
}

/// The docks after a terminal was brought to the front under a key: the first
/// tab that shows it is active, with it in front. Nothing changes where the key
/// has no such tab.
pub open spec fn brought_to_front(
    before: Seq<DockEntry>,
    after: Seq<DockEntry>,
    key: DockKey,
    terminal_id: Id,
) -> bool {
    match dock_at(before, key) {
        None => after == before,
        Some(at) => match first_where(before[at].dock.tabs@, shows(terminal_id), 0) {
            None => after == before,
            Some(tab) => {
                &&& after.len() == before.len()
                &&& after[at].key == key
                &&& after[at].dock.tabs@ == before[at].dock.tabs@.update(
                    tab,
                    DockTab { active_terminal_id: terminal_id, ..before[at].dock.tabs@[tab] },
                )
                &&& after[at].dock.active_tab_id == Some(before[at].dock.tabs@[tab].id)
                &&& forall|i: int| 0 <= i < before.len() && i != at ==> after[i] == before[i]
            },
        },
    }
}

/// Brings a terminal to the front under a key.
pub fn bring_to_front(docks: &mut Vec<DockEntry>, key: DockKey, terminal_id: Id)
    ensures
        brought_to_front(old(docks)@, final(docks)@, key, terminal_id),
{
    let at: usize = match find_dock(docks, key) {
        Some(at) => at,
        None => {
            return ;
        },
    };
    let ghost tabs = docks@[at as int].dock.tabs@;
    let count: usize = docks[at].dock.tabs.len();
    let mut index: usize = 0;
    while index < count
        invariant
            at < docks@.len(),
            docks@ == old(docks)@,
            tabs == docks@[at as int].dock.tabs@,
            position(Some(at)) == dock_at(old(docks)@, key),
            docks@[at as int].key == key,
            count == tabs.len(),
            index <= count,
            first_where(tabs, shows(terminal_id), 0) == first_where(
                tabs,
                shows(terminal_id),
                index as int,
            ),
        decreases count - index,
    {
        let ids = terminals_in(&docks[at].dock.tabs[index].root);
        if contains_id(&ids, terminal_id) {
            let id: Id = docks[at].dock.tabs[index].id;
            docks[at].dock.tabs[index].active_terminal_id = terminal_id;
            docks[at].dock.active_tab_id = Some(id);
            return ;
        }
        index += 1;
    }
}

/// The tab shows the terminal and nothing else.
pub open spec fn shows_only(tab: DockTab, terminal_id: Id) -> bool {
    leaves(tab.root) == seq![terminal_id]
}

/// A tab named anew where it shows the terminal alone.
pub open spec fn tab_retitled(
    before: DockTab,
    after: DockTab,
    terminal_id: Id,
    title: Seq<char>,
) -> bool {
    if shows_only(before, terminal_id) {
        after.title@ == title && after == (DockTab { title: after.title, ..before })
    } else {
        after == before
    }
}

/// The docks after the tabs that show a terminal alone were named anew.
pub open spec fn retitled(
    before: Seq<DockEntry>,
    after: Seq<DockEntry>,
    terminal_id: Id,
    title: Seq<char>,
) -> bool {
    &&& after.len() == before.len()
    &&& forall|i: int|
        0 <= i < before.len() ==> {
            &&& (#[trigger] after[i]).key == before[i].key
            &&& tabs_retitled(
                before[i].dock.tabs@,
                after[i].dock.tabs@,
                terminal_id,
                title,
                before[i].dock.tabs@.len() as int,
            )
            &&& after[i].dock.active_tab_id == before[i].dock.active_tab_id
        }
}

/// The first `count` tabs are named anew, the others are as they were.
pub open spec fn tabs_retitled(
    before: Seq<DockTab>,
    after: Seq<DockTab>,
    terminal_id: Id,
    title: Seq<char>,
    count: int,
) -> bool {
    &&& after.len() == before.len()
    &&& forall|i: int|
        0 <= i < count ==> tab_retitled(before[i], #[trigger] after[i], terminal_id, title)
    &&& forall|i: int| count <= i < before.len() ==> #[trigger] after[i] == before[i]
}

fn retitle_dock(dock: &mut Dock, terminal_id: Id, title: &str)
    ensures
        tabs_retitled(
            old(dock).tabs@,
            final(dock).tabs@,
            terminal_id,
            title@,
            old(dock).tabs@.len() as int,
        ),
        final(dock).active_tab_id == old(dock).active_tab_id,
{
    let count: usize = dock.tabs.len();
    let mut index: usize = 0;
    while index < count
        invariant
            index <= count == dock.tabs@.len(),
            count == old(dock).tabs@.len(),
            dock.active_tab_id == old(dock).active_tab_id,
            tabs_retitled(old(dock).tabs@, dock.tabs@, terminal_id, title@, index as int),
        decreases count - index,
    {
        let ids = terminals_in(&dock.tabs[index].root);
        let alone: bool = ids.len() == 1 && ids[0] == terminal_id;
        assert(alone == shows_only(dock.tabs@[index as int], terminal_id)) by {
            if alone {
                assert(ids@ =~= seq![terminal_id]);
            }
        }
        if alone {
            dock.tabs[index].title = title.to_string();
        }
        index += 1;
    }
}

/// Names the tabs that show a terminal alone.
pub fn retitle(docks: &mut Vec<DockEntry>, terminal_id: Id, title: &str)
    ensures
        retitled(old(docks)@, final(docks)@, terminal_id, title@),
{
    let mut index: usize = 0;
    while index < docks.len()
        invariant
            index <= docks@.len(),
            docks@.len() == old(docks)@.len(),
            forall|i: int|
                0 <= i < index ==> {
                    &&& (#[trigger] docks@[i]).key == old(docks)@[i].key
                    &&& tabs_retitled(
                        old(docks)@[i].dock.tabs@,
                        docks@[i].dock.tabs@,
                        terminal_id,
                        title@,
                        old(docks)@[i].dock.tabs@.len() as int,
                    )
                    &&& docks@[i].dock.active_tab_id == old(docks)@[i].dock.active_tab_id
                },
            forall|i: int| index <= i < docks@.len() ==> docks@[i] == old(docks)@[i],
        decreases docks@.len() - index,
    {
        retitle_dock(&mut docks[index].dock, terminal_id, title);
        index += 1;
    }
}

/// The entries whose key does not name the identifier.
pub open spec fn not_naming(id: Id) -> spec_fn(DockEntry) -> bool {
    |entry: DockEntry| !entry.key.names(id)
}

/// The entries that belong to another project.
pub open spec fn of_other_project(workspace_id: Id) -> spec_fn(DockEntry) -> bool {
    |entry: DockEntry| entry.key.workspace_id != workspace_id
}

/// Drops the docks whose key names the identifier.
pub fn drop_docks_naming(docks: &mut Vec<DockEntry>, id: Id)
    ensures
        final(docks)@ == old(docks)@.filter(not_naming(id)),
{
    let ghost before = docks@;
    let ghost keep = not_naming(id);
    let mut rest: Vec<DockEntry> = Vec::new();
    std::mem::swap(&mut rest, docks);
    assert(before.take(0).filter(keep) =~= Seq::<DockEntry>::empty());
    while rest.len() > 0
        invariant
            keep == not_naming(id),
            rest@.len() <= before.len(),
            rest@ == before.skip(before.len() - rest@.len()),
            docks@ == before.take(before.len() - rest@.len()).filter(keep),
        decreases rest@.len(),
    {
        let ghost done = before.len() - rest@.len();
        let entry = rest.remove(0);
        proof {
            lemma_filter_step(before, keep, done);
            assert(rest@ =~= before.skip(done + 1));
        }
        let named: bool = entry.key.workspace_id == id || entry.key.task_id == Some(id)
            || entry.key.repository_id == Some(id);
        if !named {
            docks.push(entry);
        }
    }
    assert(before.take(before.len() as int) =~= before);
}

/// Drops the docks of a project.
pub fn drop_docks_of_project(docks: &mut Vec<DockEntry>, workspace_id: Id)
    ensures
        final(docks)@ == old(docks)@.filter(of_other_project(workspace_id)),
{
    let ghost before = docks@;
    let ghost keep = of_other_project(workspace_id);
    let mut rest: Vec<DockEntry> = Vec::new();
    std::mem::swap(&mut rest, docks);
    assert(before.take(0).filter(keep) =~= Seq::<DockEntry>::empty());
    while rest.len() > 0
        invariant
            keep == of_other_project(workspace_id),
            rest@.len() <= before.len(),
            rest@ == before.skip(before.len() - rest@.len()),
            docks@ == before.take(before.len() - rest@.len()).filter(keep),
        decreases rest@.len(),
    {
        let ghost done = before.len() - rest@.len();
        let entry = rest.remove(0);
        proof {
            lemma_filter_step(before, keep, done);
            assert(rest@ =~= before.skip(done + 1));
        }
        if entry.key.workspace_id != workspace_id {
            docks.push(entry);
        }
    }
    assert(before.take(before.len() as int) =~= before);
}

// ---------------------------------------------------------------------------
// What the docks keep
// ---------------------------------------------------------------------------
/// A terminal that is brought to the front is the active one of its tab, and its tab
/// the active one of its dock; no other tab and no other dock changes.
pub proof fn law_brought_to_front(
    before: Seq<DockEntry>,
    after: Seq<DockEntry>,
    key: DockKey,
    terminal_id: Id,
    at: int,
    tab: int,
)
    requires
        brought_to_front(before, after, key, terminal_id),
        0 <= at < before.len(),
        before[at].key == key,
        forall|i: int| 0 <= i < at ==> (#[trigger] before[i]).key != key,
        0 <= tab < before[at].dock.tabs@.len(),
        leaves(before[at].dock.tabs@[tab].root).contains(terminal_id),
        forall|i: int|
            0 <= i < tab ==> !leaves((#[trigger] before[at].dock.tabs@[i]).root).contains(
                terminal_id,
            ),
    ensures
        after.len() == before.len(),
        after[at].dock.active_tab_id == Some(before[at].dock.tabs@[tab].id),
        after[at].dock.tabs@[tab].active_terminal_id == terminal_id,
        after[at].dock.tabs@[tab].root == before[at].dock.tabs@[tab].root,
        after[at].dock.tabs@.len() == before[at].dock.tabs@.len(),
        forall|i: int|
            0 <= i < before[at].dock.tabs@.len() && i != tab ==> #[trigger] after[at].dock.tabs@[i]
                == before[at].dock.tabs@[i],
        forall|i: int| 0 <= i < before.len() && i != at ==> #[trigger] after[i] == before[i],
{
    crate::search::lemma_first_where(before, entry_is(key), 0);
    assert(entry_is(key)(before[at]));
    crate::search::lemma_first_where(before[at].dock.tabs@, shows(terminal_id), 0);
    assert(shows(terminal_id)(before[at].dock.tabs@[tab]));
}

/// A tab that shows a terminal alone has the name of the terminal; every other tab
/// keeps its own, and the active tabs stay.
pub proof fn law_retitled(
    before: Seq<DockEntry>,
    after: Seq<DockEntry>,
    terminal_id: Id,
    title: Seq<char>,
    at: int,
    tab: int,
)
    requires
        retitled(before, after, terminal_id, title),
        0 <= at < before.len(),
        0 <= tab < before[at].dock.tabs@.len(),
    ensures
        after[at].key == before[at].key,
        after[at].dock.active_tab_id == before[at].dock.active_tab_id,
        after[at].dock.tabs@.len() == before[at].dock.tabs@.len(),
        after[at].dock.tabs@[tab].id == before[at].dock.tabs@[tab].id,
        after[at].dock.tabs@[tab].root == before[at].dock.tabs@[tab].root,
        before[at].dock.tabs@[tab].root == (DockNode::Panel { terminal_id })
            ==> after[at].dock.tabs@[tab].title@ == title,
        !leaves(before[at].dock.tabs@[tab].root).contains(terminal_id)
            ==> after[at].dock.tabs@[tab] == before[at].dock.tabs@[tab],
{
    assert(after[at].key == before[at].key);
    let root = before[at].dock.tabs@[tab].root;
    if root == (DockNode::Panel { terminal_id }) {
        assert(leaves(root) =~= seq![terminal_id]);
    }
    if !leaves(root).contains(terminal_id) {
        if leaves(root) == seq![terminal_id] {
            assert(leaves(root)[0] == terminal_id);
        }
    }
}

} // verus!
