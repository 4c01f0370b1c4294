//! Messages from the agents' command line.
use vstd::prelude::*;
use vstd::string::*;

use crate::app::{AppSession, AppToast, BlackholesApp, LegacyNote};
use crate::effects::{Effect, NavigationTarget};
use crate::ids::{parse_id, uuid_of, Id};
use crate::model::{
    find_task, find_terminal, task_at, terminal_at, AgentKind, RecordedSession, TerminalDescriptor,
};
use crate::search::retain_where;
use crate::text::{join2, same_text, strip_prefix, trim, trimmed};

verus! {

// ---------------------------------------------------------------------------
// Reading
// ---------------------------------------------------------------------------
/// A message by its kind. A payload is the JSON text that follows the kind; an
/// identifier is missing where it cannot be read.
#[derive(Debug)]
pub enum BridgeMessage {
    ClaudeSession { payload: String },
    CodexSession { payload: String },
    OpenTask { task_id: Option<Id> },
    NavigationLink { payload: String },
    TaskReady { payload: String },
    NoteUpdated { task_id: Option<Id> },
    Changed,
}

/// The message behind a kind.
pub open spec fn behind(message: Seq<char>, kind: Seq<char>) -> Option<Seq<char>> {
    if kind.is_prefix_of(message) {
        Some(message.skip(kind.len() as int))
    } else {
        None
    }
}

/// What a message says. Those of the agent that is not Codex begin with its name.
pub open spec fn message_is(message: Seq<char>, claude: Seq<char>, read: BridgeMessage) -> bool {
    match (
        behind(message, claude + "-session:"@),
        behind(message, "codex-session:"@),
        behind(message, "open-task:"@),
        behind(message, "navigation-link:"@),
        behind(message, "task-ready:"@),
        behind(message, "note-updated:"@),
    ) {
        (Some(rest), _, _, _, _, _) => read matches BridgeMessage::ClaudeSession { payload }
            && payload@ == rest,
        (None, Some(rest), _, _, _, _) => read matches BridgeMessage::CodexSession { payload }
            && payload@ == rest,
        (None, None, Some(rest), _, _, _) => read matches BridgeMessage::OpenTask { task_id }
            && task_id == uuid_of(vstd::utf8::encode_utf8(rest)),
        (None, None, None, Some(rest), _, _) => read matches BridgeMessage::NavigationLink { payload }
            && payload@ == rest,
        (None, None, None, None, Some(rest), _) => read matches BridgeMessage::TaskReady { payload }
            && payload@ == rest,
        (None, None, None, None, None, Some(rest)) => read matches BridgeMessage::NoteUpdated {
            task_id,
        } && task_id == uuid_of(vstd::utf8::encode_utf8(rest)),
        _ => read is Changed,
    }
}

fn behind_kind(message: &str, kind: &str) -> (result: Option<String>)
    ensures
        match (result, behind(message@, kind@)) {
            (Some(rest), Some(wanted)) => rest@ == wanted,
            (None, None) => true,
            _ => false,
        },
{
    let result = strip_prefix(message, kind);
    proof {
        if result is Some {
            assert(message@.skip(kind@.len() as int) =~= result->0@);
            assert(message@.take(kind@.len() as int) =~= kind@);
        }
    }
    result
}

/// Reads the kind of a message.
pub fn read_bridge_message(message: &str, claude: &str) -> (result: BridgeMessage)
    ensures
        message_is(trimmed(message@), claude@, result),
{
    let message = trim(message);
    let text = message.as_str();
    let kind = join2(claude, "-session:");
    if let Some(payload) = behind_kind(text, kind.as_str()) {
        return BridgeMessage::ClaudeSession { payload };
    }
    if let Some(payload) = behind_kind(text, "codex-session:") {
        return BridgeMessage::CodexSession { payload };
    }
    if let Some(task_id) = behind_kind(text, "open-task:") {
        return BridgeMessage::OpenTask { task_id: parse_id(task_id.as_str()) };
    }
    if let Some(payload) = behind_kind(text, "navigation-link:") {
        return BridgeMessage::NavigationLink { payload };
    }
    if let Some(payload) = behind_kind(text, "task-ready:") {
        return BridgeMessage::TaskReady { payload };
    }
    if let Some(task_id) = behind_kind(text, "note-updated:") {
        return BridgeMessage::NoteUpdated { task_id: parse_id(task_id.as_str()) };
    }
    BridgeMessage::Changed
}

/// What a message asks for, with its payload read.
#[derive(Debug)]
pub enum BridgeEvent {
    ClaudeSession { terminal_id: Id, session: RecordedSession },
    CodexSession { terminal_id: Id, session: RecordedSession },
    OpenTask { task_id: Id },
    NavigationLink { scope: String, project: Option<Id>, task: Option<Id> },
    TaskReady { task_id: Id, title: Option<String>, message: Option<String> },
    NoteUpdated { task: Option<Id> },
    Changed,
}

/// What the host does next: nothing, show a notification on the desktop, or
/// read the records again and hand the event back.
#[derive(Debug)]
pub enum BridgeReply {
    Done,
    Announce { toast: AppToast },
    Reload { event: BridgeEvent },
}

// ---------------------------------------------------------------------------
// Recorded conversations
// ---------------------------------------------------------------------------
pub open spec fn same_session(a: Option<RecordedSession>, b: RecordedSession) -> bool {
    a matches Some(a) && a.id@ == b.id@ && a.profile == b.profile
}

impl BlackholesApp {
    /// `after` is `before` with the conversation of a terminal replaced.
    pub open spec fn keeps_session(
        before: Self,
        after: Self,
        at: int,
        terminal: TerminalDescriptor,
    ) -> bool {
        &&& after.session.terminals@ == before.session.terminals@.update(at, terminal)
        &&& after == (BlackholesApp {
            session: AppSession { terminals: after.session.terminals, ..before.session },
            ..before
        })
    }

    /// `after` is `before` with a conversation of that agent recorded on a terminal,
    /// unless it is on record.
    pub open spec fn records_claude(
        before: Self,
        after: Self,
        terminal_id: Id,
        session: RecordedSession,
    ) -> bool {
        match terminal_at(before.session.terminals@, terminal_id) {
            None => after == before,
            Some(at) => {
                let terminal = before.session.terminals@[at];
                if same_session(terminal.claude_session, session) && terminal.agent
                    == AgentKind::Claude {
                    after == before
                } else {
                    exists|kept: BlackholesApp, noted: BlackholesApp| #[trigger]
                        Self::keeps_session(
                            before,
                            kept,
                            at,
                            TerminalDescriptor { claude_session: Some(session), ..terminal },
                        ) && #[trigger] Self::notes_agent(
                            kept,
                            noted,
                            terminal_id,
                            AgentKind::Claude,
                        ) && Self::saves_and_draws(noted, after)
                }
            },
        }
    }

    /// `after` is `before` with a conversation of Codex recorded on a terminal.
    pub open spec fn records_codex(
        before: Self,
        after: Self,
        terminal_id: Id,
        session: RecordedSession,
    ) -> bool {
        match terminal_at(before.session.terminals@, terminal_id) {
            None => after == before,
            Some(at) => {
                let terminal = before.session.terminals@[at];
                exists|kept: BlackholesApp, noted: BlackholesApp| #[trigger]
                    Self::keeps_session(
                        before,
                        kept,
                        at,
                        TerminalDescriptor { codex_session: Some(session), ..terminal },
                    ) && #[trigger] Self::notes_agent(
                        kept,
                        noted,
                        terminal_id,
                        AgentKind::Codex,
                    ) && Self::saves_and_draws(noted, after)
            },
        }
    }

    fn record_claude(&mut self, terminal_id: Id, session: RecordedSession)
        ensures
            Self::records_claude(*old(self), *final(self), terminal_id, session),
    {
        let ghost before = *self;
        let at: usize = match find_terminal(&self.session.terminals, terminal_id) {
            Some(at) => at,
            None => {
                return ;
            },
        };
        let recorded: bool = self.session.terminals[at].agent == AgentKind::Claude && match &self.session.terminals[at].claude_session {
            Some(current) => current.profile == session.profile && same_text(
                current.id.as_str(),
                session.id.as_str(),
            ),
            None => false,
        };
        if recorded {
            return ;
        }
        self.session.terminals[at].claude_session = Some(session);
        let ghost kept = *self;
        assert(kept.session.terminals@ =~= before.session.terminals@.update(
            at as int,
            TerminalDescriptor {
                claude_session: Some(session),
                ..before.session.terminals@[at as int]
            },
        ));
        assert(Self::keeps_session(
            before,
            kept,
            at as int,
            TerminalDescriptor {
                claude_session: Some(session),
                ..before.session.terminals@[at as int]
            },
        ));
        self.set_terminal_agent(terminal_id, AgentKind::Claude);
        assert(Self::notes_agent(kept, *self, terminal_id, AgentKind::Claude));
        self.save_and_draw();
    }

    fn record_codex(&mut self, terminal_id: Id, session: RecordedSession)
        ensures
            Self::records_codex(*old(self), *final(self), terminal_id, session),
    {
        let ghost before = *self;
        let at: usize = match find_terminal(&self.session.terminals, terminal_id) {
            Some(at) => at,
            None => {
                return ;
            },
        };
        self.session.terminals[at].codex_session = Some(session);
        let ghost kept = *self;
        assert(kept.session.terminals@ =~= before.session.terminals@.update(
            at as int,
            TerminalDescriptor {
                codex_session: Some(session),
                ..before.session.terminals@[at as int]
            },
        ));
        assert(Self::keeps_session(
            before,
            kept,
            at as int,
            TerminalDescriptor {
                codex_session: Some(session),
                ..before.session.terminals@[at as int]
            },
        ));
        self.set_terminal_agent(terminal_id, AgentKind::Codex);
        assert(Self::notes_agent(kept, *self, terminal_id, AgentKind::Codex));
        self.save_and_draw();
    }
}

// ---------------------------------------------------------------------------
// Taking a message in
// ---------------------------------------------------------------------------
pub open spec fn note_of_other(task_id: Id) -> spec_fn(LegacyNote) -> bool {
    |note: LegacyNote| note.task_id != task_id
}

impl BlackholesApp {
    /// The target of a link.
    pub open spec fn link_target(scope: Seq<char>, project_id: Option<Id>, task_id: Option<Id>) -> Option<
        NavigationTarget,
    > {
        if scope == "project"@ {
            match project_id {
                Some(workspace_id) => Some(NavigationTarget::Project { workspace_id }),
                None => None,
            }
        } else if scope == "task"@ {
            match task_id {
                Some(task_id) => Some(NavigationTarget::Task { task_id }),
                None => None,
            }
        } else {
            None
        }
    }

    /// `after` is `before` where a link leads, after the records were read again.
    pub open spec fn follows_navigation_link(
        before: Self,
        after: Self,
        scope: Seq<char>,
        project_id: Option<Id>,
        task_id: Option<Id>,
    ) -> bool {
        match Self::link_target(scope, project_id, task_id) {
            Some(target) => Self::follows_link(before, after, target, true),
            None => after == before,
        }
    }

    /// Goes where a link leads, after the records were read again.
    pub fn handle_navigation_link(
        &mut self,
        scope: &str,
        project_id: Option<Id>,
        task_id: Option<Id>,
    )
        ensures
            Self::follows_navigation_link(
                *old(self),
                *final(self),
                scope@,
                project_id,
                task_id,
            ),
    {
        if same_text(scope, "project") {
            if let Some(workspace_id) = project_id {
                self.open_project_from_navigation(workspace_id, true);
            }
        } else if same_text(scope, "task") {
            if let Some(task_id) = task_id {
                self.open_task_from_navigation(task_id, true);
            }
        }
    }

    /// `after` is `before` with the note of a task to be read anew.
    pub open spec fn drops_note(before: Self, after: Self, task_id: Option<Id>) -> bool {
        &&& after.task_legacy_notes@ == match task_id {
            Some(task_id) => before.task_legacy_notes@.filter(note_of_other(task_id)),
            None => before.task_legacy_notes@,
        }
        &&& after.effects@ == before.effects@ + seq![Effect::Redraw]
        &&& after == (BlackholesApp {
            task_legacy_notes: after.task_legacy_notes,
            effects: after.effects,
            ..before
        })
    }

    /// What a message comes to. A message about a task that is not known, or one
    /// that follows a change of the records, waits until they were read again.
    pub open spec fn takes_message(
        before: Self,
        after: Self,
        event: BridgeEvent,
        reloaded: bool,
        reply: BridgeReply,
    ) -> bool {
        match event {
            BridgeEvent::ClaudeSession { terminal_id, session } => reply is Done
                && Self::records_claude(before, after, terminal_id, session),
            BridgeEvent::CodexSession { terminal_id, session } => reply is Done
                && Self::records_codex(before, after, terminal_id, session),
            BridgeEvent::OpenTask { task_id } => match task_at(before.tasks@, task_id) {
                Some(at) => {
                    let task = before.tasks@[at];
                    reply is Done && Self::selects_surface(
                        before,
                        after,
                        task.workspace_id,
                        Some(task.id),
                        if task.repositories@.len() > 0 {
                            Some(task.repositories@[0].repository_id)
                        } else {
                            None
                        },
                        false,
                    )
                },
                None => after == before && if reloaded {
                    reply is Done
                } else {
                    reply == (BridgeReply::Reload { event })
                },
            },
            BridgeEvent::NavigationLink { scope, project, task } => if reloaded {
                reply is Done && Self::follows_navigation_link(
                    before,
                    after,
                    scope@,
                    project,
                    task,
                )
            } else {
                after == before && reply == (BridgeReply::Reload { event })
            },
            BridgeEvent::TaskReady { task_id, title, message } => match task_at(
                before.tasks@,
                task_id,
            ) {
                Some(at) => Self::announces(before, after, before.tasks@[at], title, message)
                    && reply == (BridgeReply::Announce { toast: after.app_toasts@.last() }),
                None => after == before && if reloaded {
                    reply is Done
                } else {
                    reply == (BridgeReply::Reload { event })
                },
            },
            BridgeEvent::NoteUpdated { task } => reply is Done && Self::drops_note(
                before,
                after,
                task,
            ),
            BridgeEvent::Changed => if reloaded {
                reply is Done && Self::requests(before, after, seq![Effect::Redraw])
            } else {
                after == before && reply == (BridgeReply::Reload { event })
            },
        }
    }

    /// Takes a message in. `reloaded` is whether the records were read again for it.
    pub fn handle_bridge_event(&mut self, event: BridgeEvent, reloaded: bool) -> (reply: BridgeReply)
        ensures
            Self::takes_message(*old(self), *final(self), event, reloaded, reply),
    {
        let ghost before = *self;
        match event {
            BridgeEvent::ClaudeSession { terminal_id, session } => {
                self.record_claude(terminal_id, session);
                BridgeReply::Done
            },
            BridgeEvent::CodexSession { terminal_id, session } => {
                self.record_codex(terminal_id, session);
                BridgeReply::Done
            },
            BridgeEvent::OpenTask { task_id } => match find_task(&self.tasks, task_id) {
                Some(at) => {
                    let repository_id: Option<Id> = if self.tasks[at].repositories.len() > 0 {
                        Some(self.tasks[at].repositories[0].repository_id)
                    } else {
                        None
                    };
                    let workspace_id: Id = self.tasks[at].workspace_id;
                    let task_id: Id = self.tasks[at].id;
                    self.select_target(workspace_id, Some(task_id), repository_id);
                    BridgeReply::Done
                },
                None => if reloaded {
                    BridgeReply::Done
                } else {
                    BridgeReply::Reload { event: BridgeEvent::OpenTask { task_id } }
                },
            },
            BridgeEvent::NavigationLink { scope, project, task } => if reloaded {
                self.handle_navigation_link(scope.as_str(), project, task);
                BridgeReply::Done
            } else {
                BridgeReply::Reload {
                    event: BridgeEvent::NavigationLink { scope, project, task },
                }
            },
            BridgeEvent::TaskReady { task_id, title, message } => {
                if find_task(&self.tasks, task_id).is_none() {
                    return if reloaded {
                        BridgeReply::Done
                    } else {
                        BridgeReply::Reload {
                            event: BridgeEvent::TaskReady { task_id, title, message },
                        }
                    };
                }
                match self.announce_ready_task(task_id, title, message) {
                    Some(toast) => BridgeReply::Announce { toast },
                    None => BridgeReply::Done,
                }
            },
            BridgeEvent::NoteUpdated { task } => {
                if let Some(task_id) = task {
                    let test = |note: &LegacyNote| -> (kept: bool)
                        ensures
                            kept == (note.task_id != task_id),
                    { note.task_id != task_id };
                    retain_where(&mut self.task_legacy_notes, Ghost(note_of_other(task_id)), test);
                }
                self.notify();
                BridgeReply::Done
            },
            BridgeEvent::Changed => if reloaded {
                self.notify();
                BridgeReply::Done
            } else {
                BridgeReply::Reload { event: BridgeEvent::Changed }
            },
        }
    }
}

// ---------------------------------------------------------------------------
// What a message leads to
// ---------------------------------------------------------------------------
/// A conversation that an agent reports is on record with its terminal, which is one of
/// that agent from then on; other terminals stay.
pub proof fn law_conversation_recorded(
    before: BlackholesApp,
    claude: BlackholesApp,
    codex: BlackholesApp,
    terminal_id: Id,
    session: RecordedSession,
    at: int,
)
    requires
        BlackholesApp::records_claude(before, claude, terminal_id, session),
        BlackholesApp::records_codex(before, codex, terminal_id, session),
        crate::terminals::stands_at(before.session.terminals@, terminal_id, at),
    ensures
        claude.session.terminals@[at].agent == AgentKind::Claude,
        same_session(claude.session.terminals@[at].claude_session, session),
        codex.session.terminals@[at].agent == AgentKind::Codex,
        codex.session.terminals@[at].codex_session == Some(session),
        codex.session.terminals@[at].claude_session is None,
        codex.session.terminals@[at].state == before.session.terminals@[at].state,
        claude.session.terminals@[at].state == before.session.terminals@[at].state,
        forall|i: int|
            0 <= i < before.session.terminals@.len() && i != at
                ==> #[trigger] codex.session.terminals@[i] == before.session.terminals@[i],
        forall|i: int|
            0 <= i < before.session.terminals@.len() && i != at
                ==> #[trigger] claude.session.terminals@[i] == before.session.terminals@[i],
{
    let wanted = crate::model::terminal_is(terminal_id);
    let terminals = before.session.terminals@;
    let terminal = terminals[at];
    crate::search::lemma_first_where(terminals, wanted, 0);
    assert(wanted(terminal));
    let (kept, noted) = choose|kept: BlackholesApp, noted: BlackholesApp| #[trigger]
        BlackholesApp::keeps_session(
            before,
            kept,
            at,
            TerminalDescriptor { codex_session: Some(session), ..terminal },
        ) && #[trigger] BlackholesApp::notes_agent(kept, noted, terminal_id, AgentKind::Codex)
            && BlackholesApp::saves_and_draws(noted, codex);
    lemma_found_again(terminals, kept.session.terminals@, terminal_id, at);
    if !(same_session(terminal.claude_session, session) && terminal.agent == AgentKind::Claude) {
        let (kept, noted) = choose|kept: BlackholesApp, noted: BlackholesApp| #[trigger]
            BlackholesApp::keeps_session(
                before,
                kept,
                at,
                TerminalDescriptor { claude_session: Some(session), ..terminal },
            ) && #[trigger] BlackholesApp::notes_agent(kept, noted, terminal_id, AgentKind::Claude)
                && BlackholesApp::saves_and_draws(noted, claude);
        lemma_found_again(terminals, kept.session.terminals@, terminal_id, at);
    }
}

proof fn lemma_found_again(
    before: Seq<TerminalDescriptor>,
    after: Seq<TerminalDescriptor>,
    terminal_id: Id,
    at: int,
)
    requires
        crate::terminals::stands_at(before, terminal_id, at),
        after == before.update(at, after[at]),
        after[at].id == terminal_id,
    ensures
        terminal_at(after, terminal_id) == Some(at),
{
    let wanted = crate::model::terminal_is(terminal_id);
    crate::search::lemma_first_where(after, wanted, 0);
    assert(wanted(after[at]));
    assert forall|i: int| 0 <= i < at implies !wanted(#[trigger] after[i]) by {
        assert(after[i] == before[i]);
    }
}

/// A message about a task that is known is acted upon at once: the task is opened, or
/// announced. One about a task that is not known waits for the records to be read
/// again, and only once.
pub proof fn law_message_taken(
    before: BlackholesApp,
    after: BlackholesApp,
    event: BridgeEvent,
    reloaded: bool,
    reply: BridgeReply,
    task_id: Id,
)
    requires
        BlackholesApp::takes_message(before, after, event, reloaded, reply),
        (event matches BridgeEvent::OpenTask { task_id: id } && id == task_id) || (event matches
        BridgeEvent::TaskReady { task_id: id, .. } && id == task_id),
    ensures
        ({
            let known = exists|i: int|
                0 <= i < before.tasks@.len() && (#[trigger] before.tasks@[i]).id == task_id;
            &&& !known ==> after == before && (reply is Reload <==> !reloaded)
            &&& known && event is OpenTask ==> reply is Done && after.session.selected_task_id
                == Some(task_id)
            &&& known && event is TaskReady ==> reply is Announce
                && after.session.unseen_task_ids@.contains(task_id) && after.surface
                == before.surface && after.session.selected_task_id
                == before.session.selected_task_id
        }),
{
    crate::search::lemma_first_where(before.tasks@, crate::model::task_is(task_id), 0);
    if exists|i: int| 0 <= i < before.tasks@.len() && (#[trigger] before.tasks@[i]).id == task_id {
        let i = choose|i: int|
            0 <= i < before.tasks@.len() && (#[trigger] before.tasks@[i]).id == task_id;
        assert(crate::model::task_is(task_id)(before.tasks@[i]));
    }
    if let Some(at) = task_at(before.tasks@, task_id) {
        assert(before.tasks@[at].id == task_id);
        match event {
            BridgeEvent::OpenTask { .. } => {
                let task = before.tasks@[at];
                let repository = if task.repositories@.len() > 0 {
                    Some(task.repositories@[0].repository_id)
                } else {
                    None
                };
                crate::selection::law_target_selected(
                    before,
                    after,
                    task.workspace_id,
                    Some(task.id),
                    repository,
                    false,
                );
            },
            BridgeEvent::TaskReady { title, message, .. } => {
                crate::toasts::law_announced_task(before, after, before.tasks@[at], title, message);
            },
            _ => {},
        }
    }
}

/// A message is of the kind it begins with, and carries what stands behind it.
pub proof fn law_message_kinds(payload: Seq<char>, claude: Seq<char>, read: BridgeMessage)
    requires
        claude.len() > 0,
        claude[0] != 't' && claude[0] != 'n',
    ensures
        message_is("task-ready:"@ + payload, claude, read) ==> (read matches
        BridgeMessage::TaskReady { payload: rest } && rest@ == payload),
        message_is("navigation-link:"@ + payload, claude, read) ==> (read matches
        BridgeMessage::NavigationLink { payload: rest } && rest@ == payload),
        message_is(claude + "-session:"@ + payload, claude, read) ==> (read matches
        BridgeMessage::ClaudeSession { payload: rest } && rest@ == payload),
{
    reveal_strlit("-session:");
    reveal_strlit("codex-session:");
    reveal_strlit("open-task:");
    reveal_strlit("navigation-link:");
    reveal_strlit("task-ready:");
    reveal_strlit("note-updated:");
    let kind = claude + "-session:"@;
    assert(kind[0] == claude[0]);
    let ready = "task-ready:"@ + payload;
    assert(ready[0] == 't');
    assert(ready.subrange(0, "task-ready:"@.len() as int) =~= "task-ready:"@);
    assert(ready.skip("task-ready:"@.len() as int) =~= payload);
    lemma_begins(ready, kind);
    lemma_begins(ready, "codex-session:"@);
    lemma_begins(ready, "open-task:"@);
    lemma_begins(ready, "navigation-link:"@);
    let link = "navigation-link:"@ + payload;
    assert(link[0] == 'n');
    assert(link.subrange(0, "navigation-link:"@.len() as int) =~= "navigation-link:"@);
    assert(link.skip("navigation-link:"@.len() as int) =~= payload);
    lemma_begins(link, kind);
    lemma_begins(link, "codex-session:"@);
    lemma_begins(link, "open-task:"@);
    let session = claude + "-session:"@ + payload;
    assert(session.subrange(0, kind.len() as int) =~= kind);
    assert(session.skip(kind.len() as int) =~= payload);
}

/// A text that begins with another begins with its first character.
proof fn lemma_begins(text: Seq<char>, start: Seq<char>)
    requires
        start.len() > 0,
    ensures
        start.is_prefix_of(text) ==> text.len() > 0 && text[0] == start[0],
{
    if start.is_prefix_of(text) {
        assert(start[0] == text.subrange(0, start.len() as int)[0]);
    }
}

/// A link goes to what its scope names, and nowhere where that is missing.
pub proof fn law_link_target(project_id: Option<Id>, task_id: Option<Id>)
    ensures
        BlackholesApp::link_target("project"@, project_id, task_id) == match project_id {
            Some(workspace_id) => Some(NavigationTarget::Project { workspace_id }),
            None => None,
        },
        BlackholesApp::link_target("task"@, project_id, task_id) == match task_id {
            Some(task_id) => Some(NavigationTarget::Task { task_id }),
            None => None,
        },
{
    reveal_strlit("project");
    reveal_strlit("task");
    assert("project"@.len() == 7 && "task"@.len() == 4);
}

} // verus!
