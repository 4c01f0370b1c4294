//! What every transition keeps: the docks show the terminals of the session, each
//! in the dock that it belongs to.
use vstd::prelude::*;
use vstd::string::*;

use crate::app::{AppSession, BlackholesApp};
use crate::dock::{
    brought_to_front, closed_in, dock_at, dock_is_consistent, emptied_by, emptied_ids, entry_is,
    law_close_in_dock, law_pruned_leaves, leaves, outside, pruned, shows, tab_ids, tab_opened,
    without_terminal, DockEntry, DockKey, DockNode, DockTab,
};
use crate::ids::{other_than, Id};
use crate::launching::other_terminal;
use crate::model::{ProjectTask, SessionState, TerminalDescriptor, Workspace};
use crate::paths::places;
use crate::projects::{terminal_ids_of, terminal_of_task};
use crate::removal::{terminal_of_other, worktrees_of};
use crate::search::{first_where, lemma_first_where};
use crate::startup::restored;

verus! {

/// A terminal of the session is the one with the identifier and belongs to the dock.
pub open spec fn is_docked(terminals: Seq<TerminalDescriptor>, key: DockKey, id: Id) -> bool {
    exists|i: int|
        0 <= i < terminals.len() && (#[trigger] terminals[i]).id == id && terminals[i].dock() == key
}

/// Every panel of the tab shows a terminal of the session that belongs to the dock.
pub open spec fn tab_in_order(
    terminals: Seq<TerminalDescriptor>,
    key: DockKey,
    tab: DockTab,
) -> bool {
    forall|id: Id| #[trigger] leaves(tab.root).contains(id) ==> is_docked(terminals, key, id)
}

/// Every tab of the dock is in order, the tabs show their active terminals, and
/// the active tab is there.
pub open spec fn entry_in_order(terminals: Seq<TerminalDescriptor>, entry: DockEntry) -> bool {
    &&& forall|t: int|
        0 <= t < entry.dock.tabs@.len() ==> tab_in_order(
            terminals,
            entry.key,
            #[trigger] entry.dock.tabs@[t],
        )
    &&& dock_is_consistent(entry.dock)
}

/// Every dock is in order.
pub open spec fn docks_in_order(session: AppSession) -> bool {
    forall|d: int|
        0 <= d < session.docks@.len() ==> entry_in_order(
            session.terminals@,
            #[trigger] session.docks@[d],
        )
}

/// The terminals of `before` are found again, where they belong, among those of `after`.
pub open spec fn keeps_places(
    before: Seq<TerminalDescriptor>,
    after: Seq<TerminalDescriptor>,
) -> bool {
    forall|key: DockKey, id: Id| is_docked(before, key, id) ==> #[trigger] is_docked(after, key, id)
}

proof fn lemma_same_docks(before: AppSession, after: AppSession)
    requires
        docks_in_order(before),
        after.docks@ == before.docks@,
        keeps_places(before.terminals@, after.terminals@),
    ensures
        docks_in_order(after),
{
    assert forall|d: int| 0 <= d < after.docks@.len() implies entry_in_order(
        after.terminals@,
        #[trigger] after.docks@[d],
    ) by {
        let entry = before.docks@[d];
        assert(entry_in_order(before.terminals@, entry));
        assert forall|t: int| 0 <= t < entry.dock.tabs@.len() implies tab_in_order(
            after.terminals@,
            entry.key,
            #[trigger] entry.dock.tabs@[t],
        ) by {
            assert(tab_in_order(before.terminals@, entry.key, entry.dock.tabs@[t]));
        }
    }
}

/// A terminal that is changed in place keeps its identifier and its dock.
proof fn lemma_updated_places(
    before: Seq<TerminalDescriptor>,
    at: int,
    terminal: TerminalDescriptor,
)
    requires
        0 <= at < before.len(),
        terminal.id == before[at].id,
        terminal.dock() == before[at].dock(),
    ensures
        keeps_places(before, before.update(at, terminal)),
{
    let after = before.update(at, terminal);
    assert forall|key: DockKey, id: Id| is_docked(before, key, id) implies #[trigger] is_docked(
        after,
        key,
        id,
    ) by {
        let i = choose|i: int|
            0 <= i < before.len() && (#[trigger] before[i]).id == id && before[i].dock() == key;
        assert(after[i].id == id && after[i].dock() == key);
    }
}

proof fn lemma_noted_places(
    before: Seq<TerminalDescriptor>,
    after: Seq<TerminalDescriptor>,
    terminal_id: Id,
    state: SessionState,
)
    requires
        BlackholesApp::terminals_in_state(before, after, terminal_id, state),
    ensures
        keeps_places(before, after),
{
    lemma_first_where(before, crate::model::terminal_is(terminal_id), 0);
    if let Some(at) = crate::model::terminal_at(before, terminal_id) {
        lemma_updated_places(before, at, TerminalDescriptor { state, ..before[at] });
    }
}

/// Noting the state of a terminal keeps the docks in order.
pub proof fn law_noting_keeps_docks(
    before: BlackholesApp,
    after: BlackholesApp,
    terminal_id: Id,
    state: SessionState,
)
    requires
        docks_in_order(before.session),
        BlackholesApp::notes_state(before, after, terminal_id, state),
    ensures
        docks_in_order(after.session),
{
    lemma_noted_places(before.session.terminals@, after.session.terminals@, terminal_id, state);
    lemma_same_docks(before.session, after.session);
}

// ---------------------------------------------------------------------------
// Opening
// ---------------------------------------------------------------------------
/// Opening a terminal keeps the docks in order.
pub proof fn law_opening_keeps_docks(
    before: BlackholesApp,
    after: BlackholesApp,
    terminal: TerminalDescriptor,
)
    requires
        docks_in_order(before.session),
        BlackholesApp::opens_terminal(before, after, terminal),
    ensures
        docks_in_order(after.session),
{
    let (tab_id, added) = choose|tab_id: Id, added: BlackholesApp| #[trigger]
        BlackholesApp::adds_terminal(before, added, terminal, tab_id)
            && BlackholesApp::records_terminal(added, after, terminal);
    assert(BlackholesApp::adds_terminal(before, added, terminal, tab_id));
    assert(after.session == added.session);
    let old_terminals = before.session.terminals@;
    let terminals = after.session.terminals@;
    let tab = choose|tab: DockTab| #[trigger]
        tab_opened(before.session.docks@, added.session.docks@, terminal.dock(), tab)
            && tab.title@ == terminal.label@ && tab == (DockTab {
            id: tab_id,
            title: tab.title,
            root: DockNode::Panel { terminal_id: terminal.id },
            active_terminal_id: terminal.id,
        });
    assert(keeps_places(old_terminals, terminals)) by {
        assert forall|key: DockKey, id: Id|
            is_docked(old_terminals, key, id) implies #[trigger] is_docked(terminals, key, id) by {
            let i = choose|i: int|
                0 <= i < old_terminals.len() && (#[trigger] old_terminals[i]).id == id
                    && old_terminals[i].dock() == key;
            assert(terminals[i] == old_terminals[i]);
        }
    }
    assert(leaves(tab.root) =~= seq![terminal.id]);
    assert(tab_in_order(terminals, terminal.dock(), tab)) by {
        assert(terminals[terminals.len() - 1] == terminal);
        assert(is_docked(terminals, terminal.dock(), terminal.id));
    }
    lemma_first_where(before.session.docks@, entry_is(terminal.dock()), 0);
    assert forall|d: int| 0 <= d < after.session.docks@.len() implies entry_in_order(
        terminals,
        #[trigger] after.session.docks@[d],
    ) by {
        let entry = after.session.docks@[d];
        let at = dock_at(before.session.docks@, terminal.dock());
        let fresh = at == Some(d) || d == before.session.docks@.len();
        if d < before.session.docks@.len() {
            assert(entry_in_order(old_terminals, before.session.docks@[d]));
        }
        assert forall|t: int| 0 <= t < entry.dock.tabs@.len() implies {
            &&& tab_in_order(terminals, entry.key, #[trigger] entry.dock.tabs@[t])
            &&& leaves(entry.dock.tabs@[t].root).contains(entry.dock.tabs@[t].active_terminal_id)
        } by {
            if fresh && t == entry.dock.tabs@.len() - 1 {
                assert(entry.dock.tabs@[t] == tab);
                assert(leaves(tab.root)[0] == terminal.id);
            } else {
                let earlier = before.session.docks@[d];
                assert(entry.dock.tabs@[t] == earlier.dock.tabs@[t]);
                assert(tab_in_order(old_terminals, earlier.key, earlier.dock.tabs@[t]));
            }
        }
        if fresh {
            let last = entry.dock.tabs@.len() - 1;
            assert(tab_ids(entry.dock.tabs@)[last] == tab.id);
        }
    }
}

// ---------------------------------------------------------------------------
// Closing
// ---------------------------------------------------------------------------
/// A tab that is left when a terminal closed comes from one whose other panels it
/// still shows.
proof fn lemma_tab_left(before: DockEntry, after: DockEntry, terminal_id: Id, t: int) -> (at: int)
    requires
        closed_in(before.dock, after.dock, terminal_id),
        0 <= t < after.dock.tabs@.len(),
    ensures
        0 <= at < before.dock.tabs@.len(),
        forall|id: Id| #[trigger]
            leaves(after.dock.tabs@[t].root).contains(id) ==> id != terminal_id && leaves(
                before.dock.tabs@[at].root,
            ).contains(id),
{
    let mapped = before.dock.tabs@.map_values(without_terminal(terminal_id));
    let emptied = emptied_ids(before.dock.tabs@, terminal_id);
    let keep = outside(emptied);
    let gone = emptied_by(terminal_id);
    mapped.lemma_filter_pred(keep, t);
    mapped.lemma_filter_contains_rev(keep, after.dock.tabs@[t]);
    let at = choose|at: int| 0 <= at < mapped.len() && mapped[at] == after.dock.tabs@[t];
    let source = before.dock.tabs@[at];
    if pruned(source.root, terminal_id) is None {
        before.dock.tabs@.lemma_filter_contains(gone, at);
        let emptied_tabs = before.dock.tabs@.filter(gone);
        let found = choose|found: int|
            0 <= found < emptied_tabs.len() && emptied_tabs[found] == source;
        assert(tab_ids(emptied_tabs)[found] == source.id);
        assert(emptied.contains(source.id));
    }
    law_pruned_leaves(source.root, terminal_id);
    let rest = pruned(source.root, terminal_id)->0;
    assert forall|id: Id| #[trigger] leaves(rest).contains(id) implies id != terminal_id && leaves(
        source.root,
    ).contains(id) by {
        leaves(source.root).lemma_filter_contains_rev(other_than(terminal_id), id);
    }
    at
}

/// Closing a terminal keeps the docks in order.
pub proof fn law_closing_keeps_docks(
    before: BlackholesApp,
    after: BlackholesApp,
    terminal_id: Id,
    refresh_git: bool,
)
    requires
        docks_in_order(before.session),
        BlackholesApp::closes_terminal(before, after, terminal_id, refresh_git),
    ensures
        docks_in_order(after.session),
{
    let (inspected, dropped, noted) = choose|
        inspected: BlackholesApp,
        dropped: BlackholesApp,
        noted: BlackholesApp,
    |
        {
            &&& #[trigger] BlackholesApp::inspects_if(before, inspected, terminal_id, refresh_git)
            &&& #[trigger] BlackholesApp::drops_terminal(inspected, dropped, terminal_id)
            &&& #[trigger] BlackholesApp::notes_state(
                dropped,
                noted,
                terminal_id,
                SessionState::Exited,
            )
            &&& BlackholesApp::saves_and_draws(noted, after)
        };
    assert(inspected.session == before.session);
    let keep = other_terminal(terminal_id);
    let old_terminals = before.session.terminals@;
    let terminals = dropped.session.terminals@;
    assert forall|key: DockKey, id: Id|
        is_docked(old_terminals, key, id) && id != terminal_id implies #[trigger] is_docked(
        terminals,
        key,
        id,
    ) by {
        let i = choose|i: int|
            0 <= i < old_terminals.len() && (#[trigger] old_terminals[i]).id == id
                && old_terminals[i].dock() == key;
        old_terminals.lemma_filter_contains(keep, i);
        let j = choose|j: int| 0 <= j < terminals.len() && terminals[j] == old_terminals[i];
        assert(terminals[j].id == id);
    }
    assert forall|d: int| 0 <= d < dropped.session.docks@.len() implies entry_in_order(
        terminals,
        #[trigger] dropped.session.docks@[d],
    ) by {
        let earlier = before.session.docks@[d];
        let entry = dropped.session.docks@[d];
        assert(entry_in_order(old_terminals, earlier));
        assert(closed_in(earlier.dock, entry.dock, terminal_id));
        law_close_in_dock(earlier.dock, entry.dock, terminal_id);
        assert forall|t: int| 0 <= t < entry.dock.tabs@.len() implies tab_in_order(
            terminals,
            entry.key,
            #[trigger] entry.dock.tabs@[t],
        ) by {
            let at = lemma_tab_left(earlier, entry, terminal_id, t);
            assert(tab_in_order(old_terminals, earlier.key, earlier.dock.tabs@[at]));
        }
    }
    law_noting_keeps_docks(dropped, noted, terminal_id, SessionState::Exited);
}

/// No terminal of the list has the identifier.
pub open spec fn has_no_terminal(terminals: Seq<TerminalDescriptor>, id: Id) -> bool {
    forall|i: int| 0 <= i < terminals.len() ==> (#[trigger] terminals[i]).id != id
}

proof fn lemma_closing_brings_none(
    before: BlackholesApp,
    after: BlackholesApp,
    terminal_id: Id,
    refresh_git: bool,
    id: Id,
)
    requires
        BlackholesApp::closes_terminal(before, after, terminal_id, refresh_git),
        has_no_terminal(before.session.terminals@, id) || id == terminal_id,
    ensures
        has_no_terminal(after.session.terminals@, id),
{
    let (inspected, dropped, noted) = choose|
        inspected: BlackholesApp,
        dropped: BlackholesApp,
        noted: BlackholesApp,
    |
        {
            &&& #[trigger] BlackholesApp::inspects_if(before, inspected, terminal_id, refresh_git)
            &&& #[trigger] BlackholesApp::drops_terminal(inspected, dropped, terminal_id)
            &&& #[trigger] BlackholesApp::notes_state(
                dropped,
                noted,
                terminal_id,
                SessionState::Exited,
            )
            &&& BlackholesApp::saves_and_draws(noted, after)
        };
    let keep = other_terminal(terminal_id);
    assert forall|i: int| 0 <= i < dropped.session.terminals@.len() implies (
    #[trigger] dropped.session.terminals@[i]).id != id by {
        before.session.terminals@.lemma_filter_pred(keep, i);
        before.session.terminals@.lemma_filter_contains_rev(keep, dropped.session.terminals@[i]);
    }
    lemma_first_where(dropped.session.terminals@, crate::model::terminal_is(terminal_id), 0);
}

/// Where several terminals are closed at once none of them is left, and the docks
/// stay in order.
pub proof fn law_all_closed(
    before: BlackholesApp,
    after: BlackholesApp,
    terminals: Seq<Id>,
    refresh_git: bool,
)
    requires
        BlackholesApp::closes_all(before, after, terminals, refresh_git),
    ensures
        forall|i: int|
            0 <= i < terminals.len() ==> has_no_terminal(
                after.session.terminals@,
                #[trigger] terminals[i],
            ),
        docks_in_order(before.session) ==> docks_in_order(after.session),
    decreases terminals.len(),
{
    if terminals.len() > 0 {
        let earlier = choose|earlier: BlackholesApp|
            BlackholesApp::closes_all(before, earlier, terminals.drop_last(), refresh_git)
                && #[trigger] BlackholesApp::closes_terminal(
                earlier,
                after,
                terminals.last(),
                refresh_git,
            );
        law_all_closed(before, earlier, terminals.drop_last(), refresh_git);
        assert forall|i: int| 0 <= i < terminals.len() implies has_no_terminal(
            after.session.terminals@,
            #[trigger] terminals[i],
        ) by {
            if i < terminals.len() - 1 {
                assert(terminals.drop_last()[i] == terminals[i]);
            }
            lemma_closing_brings_none(earlier, after, terminals.last(), refresh_git, terminals[i]);
        }
        if docks_in_order(before.session) {
            law_closing_keeps_docks(earlier, after, terminals.last(), refresh_git);
        }
    }
}

// ---------------------------------------------------------------------------
// Focusing and naming
// ---------------------------------------------------------------------------
proof fn lemma_front_keeps_docks(before: AppSession, after: AppSession, key: DockKey, terminal_id: Id)
    requires
        docks_in_order(before),
        after.terminals@ == before.terminals@,
        brought_to_front(before.docks@, after.docks@, key, terminal_id),
    ensures
        docks_in_order(after),
{
    lemma_first_where(before.docks@, entry_is(key), 0);
    assert forall|d: int| 0 <= d < after.docks@.len() implies entry_in_order(
        after.terminals@,
        #[trigger] after.docks@[d],
    ) by {
        let earlier = before.docks@[d];
        let entry = after.docks@[d];
        assert(entry_in_order(before.terminals@, earlier));
        if dock_at(before.docks@, key) == Some(d) {
            lemma_first_where(earlier.dock.tabs@, shows(terminal_id), 0);
            assert forall|t: int| 0 <= t < entry.dock.tabs@.len() implies {
                &&& tab_in_order(after.terminals@, entry.key, #[trigger] entry.dock.tabs@[t])
                &&& leaves(entry.dock.tabs@[t].root).contains(
                    entry.dock.tabs@[t].active_terminal_id,
                )
            } by {
                assert(tab_in_order(before.terminals@, earlier.key, earlier.dock.tabs@[t]));
                assert(entry.dock.tabs@[t].root == earlier.dock.tabs@[t].root);
            }
            if let Some(tab) = first_where(earlier.dock.tabs@, shows(terminal_id), 0) {
                assert(tab_ids(entry.dock.tabs@)[tab] == earlier.dock.tabs@[tab].id);
            }
        }
    }
}

proof fn lemma_revived(before: BlackholesApp, after: BlackholesApp, terminal_id: Id)
    requires
        docks_in_order(before.session),
        BlackholesApp::restarts(before, after, terminal_id),
    ensures
        docks_in_order(after.session),
{
    if crate::model::terminal_at(before.session.terminals@, terminal_id) is Some {
        let shown = choose|shown: BlackholesApp| #[trigger]
            BlackholesApp::shows_terminals(before, shown) && BlackholesApp::revives(
                shown,
                after,
                terminal_id,
            );
        assert(shown.session == before.session);
        if shown.running@.contains(terminal_id) {
            let (noted, focused) = choose|noted: BlackholesApp, focused: BlackholesApp| #[trigger]
                BlackholesApp::notes_state(shown, noted, terminal_id, SessionState::Idle)
                    && #[trigger] BlackholesApp::requests(
                    noted,
                    focused,
                    noted.focuses(terminal_id),
                ) && BlackholesApp::saves_and_draws(focused, after);
            law_noting_keeps_docks(shown, noted, terminal_id, SessionState::Idle);
            assert(after.session == noted.session);
        }
    }
}

proof fn lemma_greeted(before: BlackholesApp, after: BlackholesApp, terminal: TerminalDescriptor)
    requires
        docks_in_order(before.session),
        BlackholesApp::greets_terminal(before, after, terminal),
    ensures
        docks_in_order(after.session),
{
    let focused = choose|focused: BlackholesApp| #[trigger]
        BlackholesApp::requests(before, focused, before.focuses(terminal.id)) && if terminal.state
            == SessionState::Attention {
            BlackholesApp::notes_and_draws(focused, after, terminal.id, SessionState::Idle)
        } else {
            BlackholesApp::saves_and_draws(focused, after)
        };
    assert(focused.session == before.session);
    if terminal.state == SessionState::Attention {
        let noted = choose|noted: BlackholesApp| #[trigger]
            BlackholesApp::notes_state(focused, noted, terminal.id, SessionState::Idle)
                && BlackholesApp::requests(
                noted,
                after,
                seq![crate::effects::Effect::Redraw],
            );
        law_noting_keeps_docks(focused, noted, terminal.id, SessionState::Idle);
        assert(after.session == noted.session);
    }
}

/// Bringing a terminal to the user keeps the docks in order.
pub proof fn law_focusing_keeps_docks(
    before: BlackholesApp,
    after: BlackholesApp,
    terminal_id: Id,
)
    requires
        docks_in_order(before.session),
        BlackholesApp::focuses_terminal(before, after, terminal_id),
    ensures
        docks_in_order(after.session),
{
    if let Some(at) = crate::model::terminal_at(before.session.terminals@, terminal_id) {
        let terminal = before.session.terminals@[at];
        let (cleared, shown, entered) = choose|
            cleared: BlackholesApp,
            shown: BlackholesApp,
            entered: BlackholesApp,
        |
            {
                &&& #[trigger] BlackholesApp::clears_toasts(before, cleared, terminal_id)
                &&& #[trigger] BlackholesApp::shows_terminals(cleared, shown)
                &&& #[trigger] BlackholesApp::enters_terminal(shown, entered, terminal)
                &&& if before.running@.contains(terminal_id) {
                    BlackholesApp::greets_terminal(entered, after, terminal)
                } else {
                    BlackholesApp::restarts(entered, after, terminal_id)
                }
            };
        assert(shown.session == before.session);
        lemma_front_keeps_docks(shown.session, entered.session, terminal.dock(), terminal.id);
        if before.running@.contains(terminal_id) {
            lemma_greeted(entered, after, terminal);
        } else {
            lemma_revived(entered, after, terminal_id);
        }
    }
}

/// A new title of a terminal keeps the docks in order.
pub proof fn law_naming_keeps_docks(
    before: BlackholesApp,
    after: BlackholesApp,
    terminal_id: Id,
    title: Seq<char>,
    shell_in_front: bool,
)
    requires
        docks_in_order(before.session),
        BlackholesApp::titles(before, after, terminal_id, title, shell_in_front),
    ensures
        docks_in_order(after.session),
{
    let old_terminals = before.session.terminals@;
    let terminals = after.session.terminals@;
    lemma_first_where(old_terminals, crate::model::terminal_is(terminal_id), 0);
    if let Some(at) = crate::model::terminal_at(old_terminals, terminal_id) {
        lemma_updated_places(old_terminals, at, terminals[at]);
    }
    assert(keeps_places(old_terminals, terminals));
    assert forall|d: int| 0 <= d < after.session.docks@.len() implies entry_in_order(
        terminals,
        #[trigger] after.session.docks@[d],
    ) by {
        let earlier = before.session.docks@[d];
        let entry = after.session.docks@[d];
        assert(entry_in_order(old_terminals, earlier));
        assert forall|t: int| 0 <= t < entry.dock.tabs@.len() implies {
            &&& tab_in_order(terminals, entry.key, #[trigger] entry.dock.tabs@[t])
            &&& leaves(entry.dock.tabs@[t].root).contains(entry.dock.tabs@[t].active_terminal_id)
        } by {
            assert(tab_in_order(old_terminals, earlier.key, earlier.dock.tabs@[t]));
            assert(entry.dock.tabs@[t].root == earlier.dock.tabs@[t].root);
        }
        assert(tab_ids(entry.dock.tabs@) =~= tab_ids(earlier.dock.tabs@));
    }
}

// ---------------------------------------------------------------------------
// Removing
// ---------------------------------------------------------------------------
proof fn lemma_dropped_task(before: BlackholesApp, after: BlackholesApp, task_id: Id)
    requires
        docks_in_order(before.session),
        BlackholesApp::drops_task(before, after, task_id),
    ensures
        docks_in_order(after.session),
{
    let keep = terminal_of_other(task_id);
    let old_terminals = before.session.terminals@;
    let terminals = after.session.terminals@;
    let named = crate::dock::not_naming(task_id);
    assert forall|d: int| 0 <= d < after.session.docks@.len() implies entry_in_order(
        terminals,
        #[trigger] after.session.docks@[d],
    ) by {
        let entry = after.session.docks@[d];
        before.session.docks@.lemma_filter_pred(named, d);
        before.session.docks@.lemma_filter_contains_rev(named, entry);
        assert(named(entry));
        assert(entry_in_order(old_terminals, entry));
        assert forall|t: int| 0 <= t < entry.dock.tabs@.len() implies tab_in_order(
            terminals,
            entry.key,
            #[trigger] entry.dock.tabs@[t],
        ) by {
            let tab = entry.dock.tabs@[t];
            assert(tab_in_order(old_terminals, entry.key, tab));
            assert forall|id: Id| #[trigger] leaves(tab.root).contains(id) implies is_docked(
                terminals,
                entry.key,
                id,
            ) by {
                let i = choose|i: int|
                    0 <= i < old_terminals.len() && (#[trigger] old_terminals[i]).id == id
                        && old_terminals[i].dock() == entry.key;
                old_terminals.lemma_filter_contains(keep, i);
                let j = choose|j: int| 0 <= j < terminals.len() && terminals[j] == old_terminals[i];
                assert(terminals[j].id == id);
            }
        }
    }
}

proof fn lemma_dropped_project(before: BlackholesApp, after: BlackholesApp, workspace_id: Id)
    requires
        docks_in_order(before.session),
        BlackholesApp::drops_project(before, after, workspace_id),
    ensures
        docks_in_order(after.session),
{
    let other = crate::dock::of_other_project(workspace_id);
    assert forall|d: int| 0 <= d < after.session.docks@.len() implies entry_in_order(
        after.session.terminals@,
        #[trigger] after.session.docks@[d],
    ) by {
        before.session.docks@.lemma_filter_contains_rev(other, after.session.docks@[d]);
    }
}

/// Removing a task keeps the docks in order.
pub proof fn law_removing_task_keeps_docks(
    before: BlackholesApp,
    after: BlackholesApp,
    task_id: Id,
)
    requires
        docks_in_order(before.session),
        BlackholesApp::removes_task(before, after, task_id),
    ensures
        docks_in_order(after.session),
{
    let (stopped, forgotten, dropped, left, saved) = choose|
        stopped: BlackholesApp,
        forgotten: BlackholesApp,
        dropped: BlackholesApp,
        left: BlackholesApp,
        saved: BlackholesApp,
    |
        {
            &&& #[trigger] BlackholesApp::stops_all(
                before,
                stopped,
                terminal_ids_of(before.session.terminals@.filter(terminal_of_task(task_id))),
            )
            &&& #[trigger] BlackholesApp::forgets_worktrees(
                stopped,
                forgotten,
                places(worktrees_of(before.tasks@, task_id)).to_set(),
            )
            &&& #[trigger] BlackholesApp::drops_task(forgotten, dropped, task_id)
            &&& #[trigger] BlackholesApp::leaves_task(dropped, left, task_id)
            &&& #[trigger] BlackholesApp::requests(left, saved, seq![left.persists()])
            &&& BlackholesApp::reports(
                saved,
                after,
                "Task, terminals, and worktrees removed; Git branches were preserved"@,
                false,
            )
        };
    assert(forgotten.session == before.session);
    lemma_dropped_task(forgotten, dropped, task_id);
    assert(after.session.docks == dropped.session.docks);
    assert(after.session.terminals == dropped.session.terminals);
}

/// Removing a project keeps the docks in order.
pub proof fn law_removing_project_keeps_docks(
    before: BlackholesApp,
    after: BlackholesApp,
    workspace_id: Id,
)
    requires
        docks_in_order(before.session),
        BlackholesApp::removes_project(before, after, workspace_id),
    ensures
        docks_in_order(after.session),
{
    let (dropped, flushed, closed, saved) = choose|
        dropped: BlackholesApp,
        flushed: BlackholesApp,
        closed: BlackholesApp,
        saved: BlackholesApp,
    |
        {
            &&& #[trigger] BlackholesApp::drops_project(before, dropped, workspace_id)
            &&& #[trigger] BlackholesApp::flushes(dropped, flushed)
            &&& #[trigger] BlackholesApp::closes_explorer(
                BlackholesApp { active_file: None, ..flushed },
                closed,
            )
            &&& #[trigger] BlackholesApp::requests(closed, saved, seq![closed.persists()])
            &&& BlackholesApp::reports(
                saved,
                after,
                "Project reference removed; files on disk were not touched"@,
                false,
            )
        };
    lemma_dropped_project(before, dropped, workspace_id);
    assert(after.session == dropped.session);
}

/// A session that is found again has its docks in order if it was left so.
pub proof fn law_restoring_keeps_docks(
    before: AppSession,
    after: AppSession,
    workspaces: Seq<Workspace>,
    tasks: Seq<ProjectTask>,
    claude: Seq<char>,
)
    requires
        docks_in_order(before),
        AppSession::restores(before, after, workspaces, tasks, claude),
    ensures
        docks_in_order(after),
{
    assert forall|key: DockKey, id: Id| is_docked(before.terminals@, key, id) implies #[trigger]
        is_docked(after.terminals@, key, id) by {
        let i = choose|i: int|
            0 <= i < before.terminals@.len() && (#[trigger] before.terminals@[i]).id == id
                && before.terminals@[i].dock() == key;
        assert(after.terminals@[i] == restored(before.terminals@[i], claude));
        assert(after.terminals@[i].id == id && after.terminals@[i].dock() == key);
    }
    lemma_same_docks(before, after);
}

} // verus!
