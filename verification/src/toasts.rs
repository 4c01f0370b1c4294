//! Notifications about terminals and tasks.
use vstd::prelude::*;
use vstd::string::*;

use crate::app::{AppSession, AppToast, AppToastTarget, BlackholesApp};
use crate::effects::Effect;
use crate::ids::{contains_id, id_text, insert_unique, remove_id, uuid_text, with_id, without_id, Id};
use crate::labels::AppIcon;
use crate::model::{find_task, find_workspace, task_at, workspace_at, AgentKind, Language, ProjectTask};
use crate::search::lemma_filter_step;
use crate::text::{join2, join3};

verus! {

// ---------------------------------------------------------------------------
// Which notifications stay
// ---------------------------------------------------------------------------
/// The terminal a notification is about.
pub open spec fn terminal_of(target: AppToastTarget) -> Option<Id> {
    match target {
        AppToastTarget::Terminal { terminal_id, .. } => Some(terminal_id),
        AppToastTarget::Task { .. } => None,
    }
}

/// The task a notification is about.
pub open spec fn task_of(target: AppToastTarget) -> Option<Id> {
    match target {
        AppToastTarget::Terminal { .. } => None,
        AppToastTarget::Task { task_id } => Some(task_id),
    }
}

/// The notifications that stay.
#[derive(Clone, Copy, Debug, PartialEq, Eq, Structural)]
pub enum ToastFilter {
    NotOfTerminal { terminal_id: Id },
    NotOfTask { task_id: Id },
    NotFor { target: AppToastTarget },
}

pub open spec fn stays(filter: ToastFilter) -> spec_fn(AppToast) -> bool {
    |toast: AppToast|
        match filter {
            ToastFilter::NotOfTerminal { terminal_id } => terminal_of(toast.target) != Some(
                terminal_id,
            ),
            ToastFilter::NotOfTask { task_id } => task_of(toast.target) != Some(task_id),
            ToastFilter::NotFor { target } => toast.target != target,
        }
}

/// The notifications without those about a terminal.
pub open spec fn without_terminal(toasts: Seq<AppToast>, terminal_id: Id) -> Seq<AppToast> {
    toasts.filter(stays(ToastFilter::NotOfTerminal { terminal_id }))
}

/// The notifications without those about a task.
pub open spec fn without_task(toasts: Seq<AppToast>, task_id: Id) -> Seq<AppToast> {
    toasts.filter(stays(ToastFilter::NotOfTask { task_id }))
}

impl AppToastTarget {
    pub fn terminal_id(&self) -> (result: Option<Id>)
        ensures
            result == terminal_of(*self),
    {
        match self {
            AppToastTarget::Terminal { terminal_id, .. } => Some(*terminal_id),
            AppToastTarget::Task { .. } => None,
        }
    }

    pub fn task_id(&self) -> (result: Option<Id>)
        ensures
            result == task_of(*self),
    {
        match self {
            AppToastTarget::Terminal { .. } => None,
            AppToastTarget::Task { task_id } => Some(*task_id),
        }
    }

    /// The key of the notification on screen.
    pub fn element_key(&self) -> (result: String)
        ensures
            result@ == match *self {
                AppToastTarget::Terminal { terminal_id, .. } => "terminal-"@ + uuid_text(terminal_id),
                AppToastTarget::Task { task_id } => "task-"@ + uuid_text(task_id),
            },
    {
        match self {
            AppToastTarget::Terminal { terminal_id, .. } => join2(
                "terminal-",
                id_text(*terminal_id).as_str(),
            ),
            AppToastTarget::Task { task_id } => join2("task-", id_text(*task_id).as_str()),
        }
    }
}

fn is_kept(filter: ToastFilter, toast: &AppToast) -> (result: bool)
    ensures
        result == stays(filter)(*toast),
{
    match filter {
        ToastFilter::NotOfTerminal { terminal_id } => toast.target.terminal_id() != Some(
            terminal_id,
        ),
        ToastFilter::NotOfTask { task_id } => toast.target.task_id() != Some(task_id),
        ToastFilter::NotFor { target } => toast.target != target,
    }
}

/// Keeps only the notifications that stay.
pub fn retain_toasts(toasts: &mut Vec<AppToast>, filter: ToastFilter)
    ensures
        final(toasts)@ == old(toasts)@.filter(stays(filter)),
{
    let ghost before = toasts@;
    let ghost keep = stays(filter);
    let mut rest: Vec<AppToast> = Vec::new();
    std::mem::swap(&mut rest, toasts);
    assert(before.take(0).filter(keep) =~= Seq::<AppToast>::empty());
    while rest.len() > 0
        invariant
            keep == stays(filter),
            rest@.len() <= before.len(),
            rest@ == before.skip(before.len() - rest@.len()),
            toasts@ == before.take(before.len() - rest@.len()).filter(keep),
        decreases rest@.len(),
    {
        let ghost done = before.len() - rest@.len();
        let toast = rest.remove(0);
        proof {
            lemma_filter_step(before, keep, done);
            assert(rest@ =~= before.skip(done + 1));
        }
        if is_kept(filter, &toast) {
            toasts.push(toast);
        }
    }
    assert(before.take(before.len() as int) =~= before);
}

// ---------------------------------------------------------------------------
// Dismissing
// ---------------------------------------------------------------------------
impl BlackholesApp {
    /// `after` is `before` without the notifications for a target.
    pub open spec fn dismisses_toast(before: Self, after: Self, target: AppToastTarget) -> bool {
        &&& after.app_toasts@ == before.app_toasts@.filter(stays(ToastFilter::NotFor { target }))
        &&& after.effects@ == before.effects@ + seq![Effect::Redraw]
        &&& after == (BlackholesApp {
            app_toasts: after.app_toasts,
            effects: after.effects,
            ..before
        })
    }

    /// Takes the notifications for a target away.
    pub fn dismiss_app_toast(&mut self, target: AppToastTarget)
        ensures
            Self::dismisses_toast(*old(self), *final(self), target),
    {
        retain_toasts(&mut self.app_toasts, ToastFilter::NotFor { target });
        self.notify();
    }

    /// `after` is `before` with a task seen: its mark and its notifications go.
    /// The session is written where the mark was there, and the window drawn
    /// where anything changed.
    pub open spec fn sees_task(before: Self, after: Self, task_id: Id) -> bool {
        let unseen = without_id(before.session.unseen_task_ids@, task_id);
        let toasts = without_task(before.app_toasts@, task_id);
        let was_unseen = unseen.len() != before.session.unseen_task_ids@.len();
        let was_shown = toasts.len() != before.app_toasts@.len();
        &&& after.session.unseen_task_ids@ == unseen
        &&& after.app_toasts@ == toasts
        &&& after.effects@ == before.effects@ + (if was_unseen {
            seq![before.persists()]
        } else {
            seq![]
        }) + (if was_unseen || was_shown {
            seq![Effect::Redraw]
        } else {
            seq![]
        })
        &&& after == (BlackholesApp {
            session: AppSession {
                unseen_task_ids: after.session.unseen_task_ids,
                ..before.session
            },
            app_toasts: after.app_toasts,
            effects: after.effects,
            ..before
        })
    }

    /// The user saw a task.
    pub fn mark_task_seen(&mut self, task_id: Id)
        ensures
            Self::sees_task(*old(self), *final(self), task_id),
    {
        let ghost before = *self;
        let unseen: usize = self.session.unseen_task_ids.len();
        remove_id(&mut self.session.unseen_task_ids, task_id);
        let shown: usize = self.app_toasts.len();
        retain_toasts(&mut self.app_toasts, ToastFilter::NotOfTask { task_id });
        let was_unseen: bool = self.session.unseen_task_ids.len() != unseen;
        let was_shown: bool = self.app_toasts.len() != shown;
        if was_unseen {
            self.persist_session();
        }
        if was_unseen || was_shown {
            self.notify();
        }
        assert(self.effects@ =~= before.effects@ + (if was_unseen {
            seq![before.persists()]
        } else {
            seq![]
        }) + (if was_unseen || was_shown {
            seq![Effect::Redraw]
        } else {
            seq![]
        }));
    }
}

/// A task that was seen has neither a mark nor a notification.
pub proof fn law_seen_task(before: BlackholesApp, after: BlackholesApp, task_id: Id)
    requires
        BlackholesApp::sees_task(before, after, task_id),
    ensures
        !after.session.unseen_task_ids@.contains(task_id),
        forall|i: int|
            0 <= i < after.app_toasts@.len() ==> task_of((#[trigger] after.app_toasts@[i]).target)
                != Some(task_id),
        after.session.selected_task_id == before.session.selected_task_id,
{
    let keep = stays(ToastFilter::NotOfTask { task_id });
    assert forall|i: int| 0 <= i < after.app_toasts@.len() implies task_of(
        (#[trigger] after.app_toasts@[i]).target,
    ) != Some(task_id) by {
        before.app_toasts@.lemma_filter_pred(keep, i);
    }
    assert forall|i: int| 0 <= i < after.session.unseen_task_ids@.len() implies #[trigger]
        after.session.unseen_task_ids@[i] != task_id by {
        before.session.unseen_task_ids@.lemma_filter_pred(crate::ids::other_than(task_id), i);
    }
}

// ---------------------------------------------------------------------------
// Tasks that are new or ready
// ---------------------------------------------------------------------------
/// What a notification says of a task.
pub open spec fn task_message(app: BlackholesApp, task: ProjectTask) -> Seq<char> {
    match (workspace_at(app.workspaces@, task.workspace_id), app.session.language) {
        (Some(at), Language::English) => task.title@ + " is ready in "@
            + app.workspaces@[at].label@,
        (Some(at), Language::Spanish) => task.title@ + " está lista en "@
            + app.workspaces@[at].label@,
        (None, Language::English) => task.title@ + " is ready"@,
        (None, Language::Spanish) => task.title@ + " está lista"@,
    }
}

/// The notification says so of the target.
pub open spec fn toast_says(toast: AppToast, target: AppToastTarget, title: Seq<char>, message: Seq<char>) -> bool {
    toast.target == target && toast.title@ == title && toast.message@ == message
}

impl AppToast {
    /// A copy of the notification.
    pub fn duplicate(&self) -> (result: AppToast)
        ensures
            result == *self,
    {
        AppToast {
            target: self.target,
            title: self.title.clone(),
            message: self.message.clone(),
        }
    }
}

impl BlackholesApp {
    /// What a notification says of a task.
    pub fn task_toast_text(&self, task: &ProjectTask, english_heading: &str, spanish_heading: &str) -> (result:
        (String, String))
        ensures
            result.0@ == self.text(english_heading@, spanish_heading@),
            result.1@ == task_message(*self, *task),
    {
        let heading = self.tr(english_heading, spanish_heading).to_string();
        let title = task.title.as_str();
        let message = match find_workspace(&self.workspaces, task.workspace_id) {
            Some(at) => {
                let project = self.workspaces[at].label.as_str();
                match self.session.language {
                    Language::English => join3(title, " is ready in ", project),
                    Language::Spanish => join3(title, " está lista en ", project),
                }
            },
            None => match self.session.language {
                Language::English => join2(title, " is ready"),
                Language::Spanish => join2(title, " está lista"),
            },
        };
        (heading, message)
    }

    /// A notification for the target is shown.
    pub open spec fn has_toast(&self, target: AppToastTarget) -> bool {
        exists|i: int| 0 <= i < self.app_toasts@.len() && (#[trigger] self.app_toasts@[i]).target == target
    }

    fn shows_toast(&self, target: AppToastTarget) -> (result: bool)
        ensures
            result == self.has_toast(target),
    {
        let mut index: usize = 0;
        while index < self.app_toasts.len()
            invariant
                index <= self.app_toasts@.len(),
                forall|i: int|
                    0 <= i < index ==> (#[trigger] self.app_toasts@[i]).target != target,
            decreases self.app_toasts@.len() - index,
        {
            if self.app_toasts[index].target == target {
                return true;
            }
            index += 1;
        }
        false
    }

    /// `after` is `before` with a notification about a new task, unless the task
    /// has one.
    pub open spec fn shows_created(before: Self, after: Self, task: ProjectTask) -> bool {
        let target = AppToastTarget::Task { task_id: task.id };
        if before.has_toast(target) {
            after == before
        } else {
            &&& after.app_toasts@.len() == before.app_toasts@.len() + 1
            &&& after.app_toasts@.drop_last() == before.app_toasts@
            &&& toast_says(
                after.app_toasts@.last(),
                target,
                before.text("New task created"@, "Nueva tarea creada"@),
                task_message(before, task),
            )
            &&& after.effects@ == before.effects@ + seq![Effect::Redraw]
            &&& after == (BlackholesApp {
                app_toasts: after.app_toasts,
                effects: after.effects,
                ..before
            })
        }
    }

    /// Tells the user of the task at a position that it was created.
    pub(crate) fn show_task_created_toast(&mut self, at: usize)
        requires
            at < old(self).tasks@.len(),
        ensures
            Self::shows_created(*old(self), *final(self), old(self).tasks@[at as int]),
    {
        let task_id: Id = self.tasks[at].id;
        let target = AppToastTarget::Task { task_id };
        if self.shows_toast(target) {
            return ;
        }
        let (title, message) = self.task_toast_text(
            &self.tasks[at],
            "New task created",
            "Nueva tarea creada",
        );
        self.app_toasts.push(AppToast { target, title, message });
        assert(self.app_toasts@.drop_last() =~= old(self).app_toasts@);
        self.notify();
    }

    /// The text that was given, else the one that stands in for it.
    pub open spec fn given_or(text: Option<String>, other: Seq<char>) -> Seq<char> {
        match text {
            Some(text) => text@,
            None => other,
        }
    }

    /// `after` is `before` with the user told that a task is ready: a mark on
    /// the task, and one notification in the place of any earlier one.
    pub open spec fn announces(
        before: Self,
        after: Self,
        task: ProjectTask,
        title: Option<String>,
        message: Option<String>,
    ) -> bool {
        let unseen = before.session.unseen_task_ids@;
        &&& after.app_toasts@.len() == without_task(before.app_toasts@, task.id).len() + 1
        &&& after.app_toasts@.drop_last() == without_task(before.app_toasts@, task.id)
        &&& toast_says(
            after.app_toasts@.last(),
            AppToastTarget::Task { task_id: task.id },
            Self::given_or(title, before.text("Task ready"@, "Tarea lista"@)),
            Self::given_or(message, task_message(before, task)),
        )
        &&& after.session.unseen_task_ids@ == with_id(unseen, task.id)
        &&& after.effects@ == before.effects@ + (if unseen.contains(task.id) {
            seq![]
        } else {
            seq![before.persists()]
        }) + seq![Effect::Redraw]
        &&& after == (BlackholesApp {
            session: AppSession {
                unseen_task_ids: after.session.unseen_task_ids,
                ..before.session
            },
            app_toasts: after.app_toasts,
            effects: after.effects,
            ..before
        })
    }

    /// An agent finished a task: the user is told, and what is selected stays as
    /// it is. The notification is handed back for the desktop; nothing where the
    /// task is unknown.
    pub fn announce_ready_task(
        &mut self,
        task_id: Id,
        title: Option<String>,
        message: Option<String>,
    ) -> (result: Option<AppToast>)
        ensures
            match task_at(old(self).tasks@, task_id) {
                Some(at) => Self::announces(
                    *old(self),
                    *final(self),
                    old(self).tasks@[at],
                    title,
                    message,
                ) && result == Some(final(self).app_toasts@.last()),
                None => result is None && *final(self) == *old(self),
            },
    {
        let ghost before = *self;
        let at: usize = match find_task(&self.tasks, task_id) {
            Some(at) => at,
            None => {
                return None;
            },
        };
        let (default_title, default_message) = self.task_toast_text(
            &self.tasks[at],
            "Task ready",
            "Tarea lista",
        );
        let task_id: Id = self.tasks[at].id;
        retain_toasts(&mut self.app_toasts, ToastFilter::NotOfTask { task_id });
        let seen: bool = !contains_id(&self.session.unseen_task_ids, task_id);
        if seen {
            insert_unique(&mut self.session.unseen_task_ids, task_id);
            self.persist_session();
        }
        let title = match title {
            Some(title) => title,
            None => default_title,
        };
        let message = match message {
            Some(message) => message,
            None => default_message,
        };
        let toast = AppToast { target: AppToastTarget::Task { task_id }, title, message };
        let shown = toast.duplicate();
        let ghost kept = self.app_toasts@;
        self.app_toasts.push(toast);
        assert(self.app_toasts@.drop_last() =~= kept);
        self.notify();
        assert(self.effects@ =~= before.effects@ + (if !seen {
            seq![]
        } else {
            seq![before.persists()]
        }) + seq![Effect::Redraw]);
        Some(shown)
    }
}

/// However often a task is announced, it has one notification and its mark, and
/// what is selected and shown stays as it is.
pub proof fn law_announced_task(
    before: BlackholesApp,
    after: BlackholesApp,
    task: ProjectTask,
    title: Option<String>,
    message: Option<String>,
)
    requires
        BlackholesApp::announces(before, after, task, title, message),
    ensures
        after.session.unseen_task_ids@.contains(task.id),
        task_of(after.app_toasts@.last().target) == Some(task.id),
        forall|i: int|
            0 <= i < after.app_toasts@.len() - 1 ==> task_of(
                (#[trigger] after.app_toasts@[i]).target,
            ) != Some(task.id),
        after.session.selected_workspace_id == before.session.selected_workspace_id,
        after.session.selected_task_id == before.session.selected_task_id,
        after.session.selected_repository_id == before.session.selected_repository_id,
        after.surface == before.surface,
{
    let keep = stays(ToastFilter::NotOfTask { task_id: task.id });
    crate::ids::law_insert_unique(before.session.unseen_task_ids@, task.id);
    assert forall|i: int| 0 <= i < after.app_toasts@.len() - 1 implies task_of(
        (#[trigger] after.app_toasts@[i]).target,
    ) != Some(task.id) by {
        before.app_toasts@.lemma_filter_pred(keep, i);
        assert(after.app_toasts@.drop_last()[i] == after.app_toasts@[i]);
    }
}

// ---------------------------------------------------------------------------
// On screen
// ---------------------------------------------------------------------------
/// The colours of a notification.
#[derive(Clone, Copy, Debug, PartialEq, Eq, Structural)]
pub struct ToastColors {
    pub icon_background: u32,
    pub border: u32,
    pub background: u32,
    pub hover_background: u32,
    pub hover_border: u32,
    pub title: u32,
    pub message: u32,
    pub close: u32,
    pub close_hover_background: u32,
}

pub open spec fn toast_colors(target: AppToastTarget) -> ToastColors {
    match target {
        AppToastTarget::Terminal { agent, .. } => ToastColors {
            icon_background: if agent == AgentKind::Codex {
                0x121916
            } else {
                0xf1f7f4
            },
            border: 0x42695c,
            background: 0x203b32,
            hover_background: 0x27483c,
            hover_border: 0x5a8b78,
            title: 0xf2f7f5,
            message: 0xb8ccc4,
            close: 0xa9c0b7,
            close_hover_background: 0x355a4c,
        },
        AppToastTarget::Task { .. } => ToastColors {
            icon_background: 0x17253b,
            border: 0x466fa8,
            background: 0x1d2e49,
            hover_background: 0x263c5e,
            hover_border: 0x628bc2,
            title: 0xf2f6fd,
            message: 0xb8c8df,
            close: 0xa9bad2,
            close_hover_background: 0x314b72,
        },
    }
}

/// The icon of a notification: that of the agent, or that of tasks.
#[derive(Clone, Copy, Debug, PartialEq, Eq, Structural)]
pub enum ToastIcon {
    Agent { agent: AgentKind },
    Task { icon: AppIcon, color: u32 },
}

pub open spec fn toast_icon(target: AppToastTarget) -> ToastIcon {
    match target {
        AppToastTarget::Terminal { agent, .. } => ToastIcon::Agent { agent },
        AppToastTarget::Task { .. } => ToastIcon::Task { icon: AppIcon::ListTodo, color: 0x8bb9ff },
    }
}

/// A notification on screen.
#[derive(Debug)]
pub struct ToastView {
    pub target: AppToastTarget,
    pub title: String,
    pub message: String,
    pub icon: ToastIcon,
    pub colors: ToastColors,
}

impl BlackholesApp {
    /// The notifications on screen, the latest first.
    pub fn render_app_toasts(&self) -> (result: Vec<ToastView>)
        ensures
            result@.len() == self.app_toasts@.len(),
            forall|i: int|
                #![trigger result@[i]]
                0 <= i < result@.len() ==> {
                    let toast = self.app_toasts@[self.app_toasts@.len() - 1 - i];
                    &&& result@[i].target == toast.target
                    &&& result@[i].title@ == toast.title@
                    &&& result@[i].message@ == toast.message@
                    &&& result@[i].icon == toast_icon(toast.target)
                    &&& result@[i].colors == toast_colors(toast.target)
                },
    {
        let mut result: Vec<ToastView> = Vec::new();
        let mut left: usize = self.app_toasts.len();
        while left > 0
            invariant
                left <= self.app_toasts@.len(),
                result@.len() == self.app_toasts@.len() - left,
                forall|i: int|
                    #![trigger result@[i]]
                    0 <= i < result@.len() ==> {
                        let toast = self.app_toasts@[self.app_toasts@.len() - 1 - i];
                        &&& result@[i].target == toast.target
                        &&& result@[i].title@ == toast.title@
                        &&& result@[i].message@ == toast.message@
                        &&& result@[i].icon == toast_icon(toast.target)
                        &&& result@[i].colors == toast_colors(toast.target)
                    },
            decreases left,
        {
            left -= 1;
            let toast = &self.app_toasts[left];
            let (icon, colors) = match toast.target {
                AppToastTarget::Terminal { agent, .. } => (
                    ToastIcon::Agent { agent },
                    ToastColors {
                        icon_background: if agent == AgentKind::Codex {
                            0x121916
                        } else {
                            0xf1f7f4
                        },
                        border: 0x42695c,
                        background: 0x203b32,
                        hover_background: 0x27483c,
                        hover_border: 0x5a8b78,
                        title: 0xf2f7f5,
                        message: 0xb8ccc4,
                        close: 0xa9c0b7,
                        close_hover_background: 0x355a4c,
                    },
                ),
                AppToastTarget::Task { .. } => (
                    ToastIcon::Task { icon: AppIcon::ListTodo, color: 0x8bb9ff },
                    ToastColors {
                        icon_background: 0x17253b,
                        border: 0x466fa8,
                        background: 0x1d2e49,
                        hover_background: 0x263c5e,
                        hover_border: 0x628bc2,
                        title: 0xf2f6fd,
                        message: 0xb8c8df,
                        close: 0xa9bad2,
                        close_hover_background: 0x314b72,
                    },
                ),
            };
            result.push(
                ToastView {
                    target: toast.target,
                    title: toast.title.clone(),
                    message: toast.message.clone(),
                    icon,
                    colors,
                },
            );
        }
        result
    }
}

/// A notification that is dismissed is gone, and every other one stays.
pub proof fn law_dismissed_toast(before: BlackholesApp, after: BlackholesApp, target: AppToastTarget)
    requires
        BlackholesApp::dismisses_toast(before, after, target),
    ensures
        forall|i: int|
            0 <= i < after.app_toasts@.len() ==> (#[trigger] after.app_toasts@[i]).target != target,
        forall|i: int|
            0 <= i < before.app_toasts@.len() && (#[trigger] before.app_toasts@[i]).target != target
                ==> after.app_toasts@.contains(before.app_toasts@[i]),
        after.session == before.session,
{
    let keep = stays(ToastFilter::NotFor { target });
    assert forall|i: int| 0 <= i < after.app_toasts@.len() implies (
    #[trigger] after.app_toasts@[i]).target != target by {
        before.app_toasts@.lemma_filter_pred(keep, i);
    }
    assert forall|i: int|
        0 <= i < before.app_toasts@.len() && (#[trigger] before.app_toasts@[i]).target != target implies
        after.app_toasts@.contains(before.app_toasts@[i]) by {
        before.app_toasts@.lemma_filter_contains(keep, i);
    }
}

/// Seeing a task takes away nothing but its own mark and notifications, and the session
/// is written exactly where the mark was there.
pub proof fn law_seen_task_only(before: BlackholesApp, after: BlackholesApp, task_id: Id)
    requires
        BlackholesApp::sees_task(before, after, task_id),
    ensures
        forall|id: Id|
            id != task_id && before.session.unseen_task_ids@.contains(id)
                ==> #[trigger] after.session.unseen_task_ids@.contains(id),
        forall|i: int|
            0 <= i < before.app_toasts@.len() && !((#[trigger] before.app_toasts@[i]).target
                matches AppToastTarget::Task { task_id: id } && id == task_id)
                ==> after.app_toasts@.contains(before.app_toasts@[i]),
        before.session.unseen_task_ids@.contains(task_id) ==> BlackholesApp::asked(
            before,
            after,
        ).len() > 0 && BlackholesApp::asked(before, after)[0] is PersistSession,
        after.tasks == before.tasks,
{
    let keep = stays(ToastFilter::NotOfTask { task_id });
    let other = crate::ids::other_than(task_id);
    let unseen = before.session.unseen_task_ids@;
    assert forall|id: Id| id != task_id && unseen.contains(id) implies #[trigger]
        after.session.unseen_task_ids@.contains(id) by {
        let i = choose|i: int| 0 <= i < unseen.len() && unseen[i] == id;
        unseen.lemma_filter_contains(other, i);
    }
    assert forall|i: int|
        0 <= i < before.app_toasts@.len() && !((#[trigger] before.app_toasts@[i]).target matches
        AppToastTarget::Task { task_id: id } && id == task_id) implies after.app_toasts@.contains(
        before.app_toasts@[i],
    ) by {
        before.app_toasts@.lemma_filter_contains(keep, i);
    }
    if unseen.contains(task_id) {
        law_seen_task(before, after, task_id);
        if unseen.filter(other).len() == unseen.len() {
            lemma_filter_all(unseen, other);
        }
        assert(BlackholesApp::asked(before, after)[0] == before.persists());
    }
}

/// A filter that keeps as many as there were keeps everything.
proof fn lemma_filter_all(ids: Seq<Id>, keep: spec_fn(Id) -> bool)
    requires
        ids.filter(keep).len() == ids.len(),
    ensures
        ids.filter(keep) == ids,
    decreases ids.len(),
{
    reveal(Seq::filter);
    if ids.len() > 0 {
        ids.drop_last().lemma_filter_len(keep);
        lemma_filter_all(ids.drop_last(), keep);
    }
}

/// A new task is told of once: its notification is the last one, unless it has one.
pub proof fn law_created_task_told(before: BlackholesApp, after: BlackholesApp, task: ProjectTask)
    requires
        BlackholesApp::shows_created(before, after, task),
    ensures
        exists|i: int|
            0 <= i < after.app_toasts@.len() && (#[trigger] after.app_toasts@[i]).target == (
            AppToastTarget::Task { task_id: task.id }),
        (exists|i: int|
            0 <= i < before.app_toasts@.len() && (#[trigger] before.app_toasts@[i]).target == (
            AppToastTarget::Task { task_id: task.id })) ==> after == before,
        before.app_toasts@.is_prefix_of(after.app_toasts@),
        after.session == before.session,
{
    if before.has_toast(AppToastTarget::Task { task_id: task.id }) {
    } else {
        let last = after.app_toasts@.len() - 1;
        assert(after.app_toasts@[last].target == (AppToastTarget::Task { task_id: task.id }));
    }
}

} // verus!
