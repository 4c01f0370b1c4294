//! Terminals that an agent starts for tasks.
use vstd::prelude::*;
use vstd::string::*;

use crate::app::{agent_name, AppToast, AppToastTarget, BlackholesApp};
use crate::clock::{current_time, fresh_id};
use crate::effects::Effect;
use crate::ids::{contains_id, Id};
use crate::model::{
    copy_text, find_task, find_terminal, task_at, terminal_at, text_of, AgentKind, AgentProfile,
    ProjectTask, SessionState, TerminalDescriptor,
};
use crate::search::{first_where, lemma_first_where, position};
use crate::text::{join2, join3, join4, strip_prefix};
use crate::toasts::toast_says;

verus! {

/// The work of one task, for an agent.
#[derive(Debug)]
pub struct TaskAgentRequest {
    pub task_id: Id,
    pub agent: Option<AgentKind>,
    pub prompt: Option<String>,
}

/// Tasks to be worked on, as an agent in a terminal asked for.
#[derive(Debug)]
pub struct StartTaskAgentsRequest {
    pub source_terminal_id: Option<Id>,
    pub source_agent: Option<AgentKind>,
    pub source_config_dir: Option<String>,
    pub agent: Option<AgentKind>,
    pub tasks: Vec<TaskAgentRequest>,
}

// ---------------------------------------------------------------------------
// Which agent, under which account
// ---------------------------------------------------------------------------
/// The terminal that the request came from.
pub open spec fn source_terminal(app: BlackholesApp, request: StartTaskAgentsRequest) -> Option<
    TerminalDescriptor,
> {
    match request.source_terminal_id {
        Some(id) => match terminal_at(app.session.terminals@, id) {
            Some(at) => Some(app.session.terminals@[at]),
            None => None,
        },
        None => None,
    }
}

/// The agent that asks: the one it says it is, else the one in its terminal.
pub open spec fn source_agent(app: BlackholesApp, request: StartTaskAgentsRequest) -> Option<AgentKind> {
    match (request.source_agent, source_terminal(app, request)) {
        (Some(agent), _) => Some(agent),
        (None, Some(terminal)) if terminal.agent != AgentKind::Shell => Some(terminal.agent),
        _ => None,
    }
}

/// The first of the choices that is made.
pub open spec fn first_agent(
    a: Option<AgentKind>,
    b: Option<AgentKind>,
    c: Option<AgentKind>,
) -> Option<AgentKind> {
    match (a, b, c) {
        (Some(agent), _, _) => Some(agent),
        (None, Some(agent), _) => Some(agent),
        (None, None, other) => other,
    }
}

/// The agent for a task: its own, else the one of the request, else the one that
/// asks. A mere shell is none.
pub open spec fn agent_for(
    app: BlackholesApp,
    request: StartTaskAgentsRequest,
    entry: TaskAgentRequest,
) -> Option<AgentKind> {
    match first_agent(entry.agent, request.agent, source_agent(app, request)) {
        Some(agent) if agent != AgentKind::Shell => Some(agent),
        _ => None,
    }
}

/// The directory of the work profile that a terminal's conversation belongs to.
pub open spec fn work_profile(
    app: BlackholesApp,
    terminal: TerminalDescriptor,
    agent: AgentKind,
    home: Seq<char>,
) -> Option<Seq<char>> {
    match (agent, terminal.codex_session, terminal.claude_session) {
        (AgentKind::Codex, Some(session), _) if session.profile == AgentProfile::Work => Some(
            home + "/.codex-work"@,
        ),
        (AgentKind::Claude, _, Some(session)) if session.profile == AgentProfile::Work => Some(
            home + "/."@ + app.agent_labels.claude_name@ + "-work"@,
        ),
        _ => None,
    }
}

/// The profile that an agent starts under: that of the agent that asks, where it
/// is the same one.
pub open spec fn profile_for(
    app: BlackholesApp,
    request: StartTaskAgentsRequest,
    agent: AgentKind,
    home: Option<String>,
) -> Option<Seq<char>> {
    if source_agent(app, request) != Some(agent) {
        None
    } else if request.source_config_dir is Some {
        text_of(request.source_config_dir)
    } else {
        match source_terminal(app, request) {
            None => None,
            Some(terminal) => if terminal.agent == agent && terminal.agent_config_dir is Some {
                text_of(terminal.agent_config_dir)
            } else {
                match home {
                    Some(home) => work_profile(app, terminal, agent, home@),
                    None => None,
                }
            },
        }
    }
}

/// What is told where no agent is known.
pub open spec fn unknown_agent_message(app: BlackholesApp) -> Seq<char> {
    "Could not detect the calling agent. Specify agent: codex, "@ + app.agent_labels.claude_name@
        + ", gemini, or opencode"@
}

impl BlackholesApp {
    fn find_source(&self, request: &StartTaskAgentsRequest) -> (result: Option<&TerminalDescriptor>)
        ensures
            match (result, source_terminal(*self, *request)) {
                (Some(terminal), Some(wanted)) => *terminal == wanted,
                (None, None) => true,
                _ => false,
            },
    {
        match request.source_terminal_id {
            Some(id) => match find_terminal(&self.session.terminals, id) {
                Some(at) => Some(&self.session.terminals[at]),
                None => None,
            },
            None => None,
        }
    }

    fn find_source_agent(&self, request: &StartTaskAgentsRequest) -> (result: Option<AgentKind>)
        ensures
            result == source_agent(*self, *request),
    {
        if let Some(agent) = request.source_agent {
            return Some(agent);
        }
        match self.find_source(request) {
            Some(terminal) => if terminal.agent != AgentKind::Shell {
                Some(terminal.agent)
            } else {
                None
            },
            None => None,
        }
    }

    fn describe_unknown_agent(&self) -> (result: String)
        ensures
            result@ == unknown_agent_message(*self),
    {
        join3(
            "Could not detect the calling agent. Specify agent: codex, ",
            self.agent_labels.claude_name.as_str(),
            ", gemini, or opencode",
        )
    }

    /// The agent and the profile for one of the tasks. `home` is the home
    /// directory of the user.
    pub fn agent_for_task(
        &self,
        request: &StartTaskAgentsRequest,
        entry: &TaskAgentRequest,
        home: Option<String>,
    ) -> (result: Result<(AgentKind, Option<String>), String>)
        ensures
            match (result, agent_for(*self, *request, *entry)) {
                (Ok((agent, profile)), Some(wanted)) => agent == wanted && text_of(profile)
                    == profile_for(*self, *request, agent, home),
                (Err(error), None) => error@ == unknown_agent_message(*self),
                _ => false,
            },
    {
        let source = self.find_source_agent(request);
        let chosen: Option<AgentKind> = match entry.agent {
            Some(agent) => Some(agent),
            None => match request.agent {
                Some(agent) => Some(agent),
                None => source,
            },
        };
        let agent = match chosen {
            Some(agent) => agent,
            None => {
                return Err(self.describe_unknown_agent());
            },
        };
        if agent == AgentKind::Shell {
            return Err(self.describe_unknown_agent());
        }
        if source != Some(agent) {
            return Ok((agent, None));
        }
        if request.source_config_dir.is_some() {
            return Ok((agent, copy_text(&request.source_config_dir)));
        }
        let terminal = match self.find_source(request) {
            Some(terminal) => terminal,
            None => {
                return Ok((agent, None));
            },
        };
        if terminal.agent == agent && terminal.agent_config_dir.is_some() {
            return Ok((agent, copy_text(&terminal.agent_config_dir)));
        }
        let profile: Option<String> = match home {
            None => None,
            Some(home) => {
                let mut profile: Option<String> = None;
                if agent == AgentKind::Codex {
                    if let Some(session) = &terminal.codex_session {
                        if session.profile == AgentProfile::Work {
                            profile = Some(join2(home.as_str(), "/.codex-work"));
                        }
                    }
                } else if agent == AgentKind::Claude {
                    if let Some(session) = &terminal.claude_session {
                        if session.profile == AgentProfile::Work {
                            profile =
                            Some(
                                join4(
                                    home.as_str(),
                                    "/.",
                                    self.agent_labels.claude_name.as_str(),
                                    "-work",
                                ),
                            );
                        }
                    }
                }
                profile
            },
        };
        Ok((agent, profile))
    }
}

// ---------------------------------------------------------------------------
// One task
// ---------------------------------------------------------------------------
/// The terminal works on the task with the agent.
pub open spec fn works_on(app: BlackholesApp, task_id: Id, agent: AgentKind) -> spec_fn(
    TerminalDescriptor,
) -> bool {
    |terminal: TerminalDescriptor|
        terminal.task_id == Some(task_id) && terminal.agent == agent && terminal.state
            != SessionState::Exited && app.running@.contains(terminal.id)
}

/// The first terminal that works on the task with the agent.
pub open spec fn working_terminal(app: BlackholesApp, task_id: Id, agent: AgentKind) -> Option<int> {
    first_where(app.session.terminals@, works_on(app, task_id, agent), 0)
}

/// What comes next for a task.
#[derive(Debug)]
pub enum TaskTerminalStep {
    /// A terminal works on it already.
    Reuse { terminal_id: Id, message: String },
    Refuse { error: &'static str },
    /// A terminal is to be started, with the prompt for the task.
    Start { descriptor: TerminalDescriptor },
}

/// What is told of a terminal that works on the task already.
pub open spec fn reuse_message(own: bool) -> Seq<char> {
    if own {
        "This terminal already owns the task. Implement here; do not delegate to yourself."@
    } else {
        "A terminal for this"@ + " task and agent is already open. No prompt was resubmitted."@
    }
}

/// A terminal for a task as a whole, at rest.
pub open spec fn is_task_terminal(
    app: BlackholesApp,
    terminal: TerminalDescriptor,
    task: ProjectTask,
    agent: AgentKind,
    config_dir: Option<String>,
) -> bool {
    &&& terminal.label@ == agent_name(app.agent_labels, agent) + " · "@ + task.title@
    &&& terminal.cwd@ == task.worktree_root_path@
    &&& terminal == (TerminalDescriptor {
        id: terminal.id,
        workspace_id: task.workspace_id,
        task_id: Some(task.id),
        repository_id: None,
        agent,
        label: terminal.label,
        cwd: terminal.cwd,
        state: SessionState::Idle,
        codex_session: None,
        claude_session: None,
        agent_config_dir: config_dir,
        created_at: terminal.created_at,
    })
}

/// What comes next for a task: a terminal that works on it is not given the work
/// twice, and none is started without the task's worktrees.
pub open spec fn is_step(
    app: BlackholesApp,
    task_id: Id,
    agent: AgentKind,
    config_dir: Option<String>,
    source_terminal_id: Option<Id>,
    worktrees_ready: bool,
    step: TaskTerminalStep,
) -> bool {
    match task_at(app.tasks@, task_id) {
        None => step matches TaskTerminalStep::Refuse { error } && error@
            == "The task does not exist"@,
        Some(at) => match working_terminal(app, task_id, agent) {
            Some(found) => step matches TaskTerminalStep::Reuse { terminal_id, message }
                && terminal_id == app.session.terminals@[found].id && message@ == reuse_message(
                source_terminal_id == Some(terminal_id),
            ),
            None => if app.tasks@[at].repositories@.len() == 0 || !worktrees_ready {
                step matches TaskTerminalStep::Refuse { error } && error@
                    == "The task needs its attached worktrees before an agent can start"@
            } else {
                step matches TaskTerminalStep::Start { descriptor } && is_task_terminal(
                    app,
                    descriptor,
                    app.tasks@[at],
                    agent,
                    config_dir,
                )
            },
        },
    }
}

impl BlackholesApp {
    fn find_working(&self, task_id: Id, agent: AgentKind) -> (result: Option<usize>)
        ensures
            position(result) == working_terminal(*self, task_id, agent),
            result matches Some(at) ==> at < self.session.terminals@.len(),
    {
        let mut index: usize = 0;
        while index < self.session.terminals.len()
            invariant
                index <= self.session.terminals@.len(),
                working_terminal(*self, task_id, agent) == first_where(
                    self.session.terminals@,
                    works_on(*self, task_id, agent),
                    index as int,
                ),
            decreases self.session.terminals@.len() - index,
        {
            let terminal = &self.session.terminals[index];
            if terminal.task_id == Some(task_id) && terminal.agent == agent && terminal.state
                != SessionState::Exited && contains_id(&self.running, terminal.id) {
                return Some(index);
            }
            index += 1;
        }
        None
    }

    /// What comes next for a task. `worktrees_ready` is whether every worktree of
    /// the task is a directory.
    pub fn start_task_terminal(
        &self,
        task_id: Id,
        agent: AgentKind,
        config_dir: Option<String>,
        source_terminal_id: Option<Id>,
        worktrees_ready: bool,
    ) -> (step: TaskTerminalStep)
        ensures
            is_step(
                *self,
                task_id,
                agent,
                config_dir,
                source_terminal_id,
                worktrees_ready,
                step,
            ),
    {
        let at: usize = match find_task(&self.tasks, task_id) {
            Some(at) => at,
            None => {
                return TaskTerminalStep::Refuse { error: "The task does not exist" };
            },
        };
        proof {
            lemma_first_where(self.tasks@, crate::model::task_is(task_id), 0);
        }
        if let Some(found) = self.find_working(task_id, agent) {
            let terminal_id: Id = self.session.terminals[found].id;
            let message = if source_terminal_id == Some(terminal_id) {
                "This terminal already owns the task. Implement here; do not delegate to yourself.".to_string()
            } else {
                join2(
                    "A terminal for this",
                    " task and agent is already open. No prompt was resubmitted.",
                )
            };
            return TaskTerminalStep::Reuse { terminal_id, message };
        }
        let task = &self.tasks[at];
        if task.repositories.len() == 0 || !worktrees_ready {
            return TaskTerminalStep::Refuse {
                error: "The task needs its attached worktrees before an agent can start",
            };
        }
        TaskTerminalStep::Start {
            descriptor: TerminalDescriptor {
                id: fresh_id(),
                workspace_id: task.workspace_id,
                task_id: Some(task.id),
                repository_id: None,
                agent,
                label: join3(self.agent_labels.label(agent), " · ", task.title.as_str()),
                cwd: task.worktree_root_path.clone(),
                state: SessionState::Idle,
                codex_session: None,
                claude_session: None,
                agent_config_dir: config_dir,
                created_at: current_time(),
            },
        }
    }

    /// `after` is `before` with a terminal for a task open and the user told. What
    /// is selected and shown stays as it is.
    pub open spec fn opens_task_terminal(before: Self, after: Self, terminal: TerminalDescriptor) -> bool {
        exists|opened: BlackholesApp| #[trigger]
            Self::opens_terminal(before, opened, terminal) && Self::tells_of_start(
                opened,
                after,
                terminal,
            )
    }

    /// `after` is `before` with the user told that a terminal started.
    pub open spec fn tells_of_start(before: Self, after: Self, terminal: TerminalDescriptor) -> bool {
        &&& after.app_toasts@.len() == before.app_toasts@.len() + 1
        &&& after.app_toasts@.drop_last() == before.app_toasts@
        &&& toast_says(
            after.app_toasts@.last(),
            AppToastTarget::Terminal { terminal_id: terminal.id, agent: terminal.agent },
            terminal.label@,
            before.text(
                "Task terminal started. Click to follow its work."@,
                "Terminal de la tarea iniciada. Haz clic para seguir el trabajo."@,
            ),
        )
        &&& after == (BlackholesApp { app_toasts: after.app_toasts, ..before })
    }

    /// The process of a terminal for a task was started.
    pub fn finish_task_terminal(&mut self, terminal: &TerminalDescriptor)
        ensures
            Self::opens_task_terminal(*old(self), *final(self), *terminal),
    {
        let ghost before = *self;
        self.open_terminal(terminal);
        let ghost opened = *self;
        assert(Self::opens_terminal(before, opened, *terminal));
        let message = self.tr(
            "Task terminal started. Click to follow its work.",
            "Terminal de la tarea iniciada. Haz clic para seguir el trabajo.",
        ).to_string();
        self.app_toasts.push(
            AppToast {
                target: AppToastTarget::Terminal {
                    terminal_id: terminal.id,
                    agent: terminal.agent,
                },
                title: terminal.label.clone(),
                message,
            },
        );
        assert(self.app_toasts@.drop_last() =~= opened.app_toasts@);
        assert(Self::tells_of_start(opened, *self, *terminal));
    }
}

/// A terminal that starts for a task takes nothing away from the user: what is
/// selected and what is shown stay as they are.
pub proof fn law_start_keeps_view(
    before: BlackholesApp,
    after: BlackholesApp,
    terminal: TerminalDescriptor,
)
    requires
        BlackholesApp::opens_task_terminal(before, after, terminal),
    ensures
        after.surface == before.surface,
        after.session.selected_workspace_id == before.session.selected_workspace_id,
        after.session.selected_task_id == before.session.selected_task_id,
        after.session.selected_repository_id == before.session.selected_repository_id,
{
}

/// Starting work on a task leaves the user where they are, and a second request
/// for the same work finds the terminal that does it.
pub proof fn law_work_not_given_twice(
    before: BlackholesApp,
    after: BlackholesApp,
    terminal: TerminalDescriptor,
    task: ProjectTask,
    config_dir: Option<String>,
)
    requires
        BlackholesApp::opens_task_terminal(before, after, terminal),
        is_task_terminal(before, terminal, task, terminal.agent, config_dir),
    ensures
        working_terminal(after, task.id, terminal.agent) is Some,
        after.session.selected_workspace_id == before.session.selected_workspace_id,
        after.session.selected_task_id == before.session.selected_task_id,
        after.session.selected_repository_id == before.session.selected_repository_id,
        after.surface == before.surface,
{
    let opened = choose|opened: BlackholesApp| #[trigger]
        BlackholesApp::opens_terminal(before, opened, terminal) && BlackholesApp::tells_of_start(
            opened,
            after,
            terminal,
        );
    let (tab_id, added) = choose|tab_id: Id, added: BlackholesApp| #[trigger]
        BlackholesApp::adds_terminal(before, added, terminal, tab_id)
            && BlackholesApp::records_terminal(added, opened, terminal);
    let terminals = after.session.terminals@;
    assert(terminals[terminals.len() - 1] == terminal);
    crate::ids::law_insert_unique(before.running@, terminal.id);
    assert(works_on(after, task.id, terminal.agent)(terminals[terminals.len() - 1]));
    lemma_first_where(terminals, works_on(after, task.id, terminal.agent), 0);
}

// ---------------------------------------------------------------------------
// All of them
// ---------------------------------------------------------------------------
/// What came of one task.
#[derive(Clone, Copy, Debug, PartialEq, Eq, Structural)]
pub enum TaskAgentOutcome {
    Started,
    Reused,
    Failed,
}

/// What came of a request.
#[derive(Clone, Copy, Debug, PartialEq, Eq, Structural)]
pub struct TaskAgentSummary {
    pub started: usize,
    pub reused: usize,
    pub failed: usize,
}

pub open spec fn outcome_is(wanted: TaskAgentOutcome) -> spec_fn(TaskAgentOutcome) -> bool {
    |outcome: TaskAgentOutcome| outcome == wanted
}

pub open spec fn count_of(outcomes: Seq<TaskAgentOutcome>, wanted: TaskAgentOutcome) -> nat {
    outcomes.filter(outcome_is(wanted)).len()
}

fn count_outcomes(outcomes: &Vec<TaskAgentOutcome>, wanted: TaskAgentOutcome) -> (result: usize)
    ensures
        result == count_of(outcomes@, wanted),
{
    let ghost keep = outcome_is(wanted);
    let mut count: usize = 0;
    let mut index: usize = 0;
    assert(outcomes@.take(0).filter(keep) =~= Seq::<TaskAgentOutcome>::empty());
    while index < outcomes.len()
        invariant
            keep == outcome_is(wanted),
            index <= outcomes@.len(),
            count <= index,
            count == outcomes@.take(index as int).filter(keep).len(),
        decreases outcomes@.len() - index,
    {
        proof {
            crate::search::lemma_filter_step(outcomes@, keep, index as int);
        }
        if outcomes[index] == wanted {
            count += 1;
        }
        index += 1;
    }
    assert(outcomes@.take(index as int) =~= outcomes@);
    count
}

impl BlackholesApp {
    /// Every task of a request was seen to.
    pub fn finish_task_agents(&mut self, outcomes: &Vec<TaskAgentOutcome>) -> (summary:
        TaskAgentSummary)
        ensures
            summary.started == count_of(outcomes@, TaskAgentOutcome::Started),
            summary.reused == count_of(outcomes@, TaskAgentOutcome::Reused),
            summary.failed == count_of(outcomes@, TaskAgentOutcome::Failed),
            Self::requests(
                *old(self),
                *final(self),
                seq![old(self).persists(), Effect::PublishNavigation, Effect::Redraw],
            ),
    {
        self.persist_session();
        self.emit(Effect::PublishNavigation);
        self.notify();
        assert(self.effects@ =~= old(self).effects@ + seq![
            old(self).persists(),
            Effect::PublishNavigation,
            Effect::Redraw,
        ]);
        TaskAgentSummary {
            started: count_outcomes(outcomes, TaskAgentOutcome::Started),
            reused: count_outcomes(outcomes, TaskAgentOutcome::Reused),
            failed: count_outcomes(outcomes, TaskAgentOutcome::Failed),
        }
    }
}

// ---------------------------------------------------------------------------
// Commands
// ---------------------------------------------------------------------------
/// A command that an agent sent.
#[derive(Debug)]
pub enum AgentCommand {
    /// Start agents for tasks; `payload` is the request as JSON.
    StartTaskAgents { payload: String },
    Unsupported,
}

/// The command of a message.
pub open spec fn is_command(command: AgentCommand, message: Seq<char>) -> bool {
    match command {
        AgentCommand::StartTaskAgents { payload } => message == "start-task-agents:"@ + payload@,
        AgentCommand::Unsupported => !"start-task-agents:"@.is_prefix_of(message),
    }
}

/// Reads the command of a message.
pub fn read_agent_command(message: &str) -> (result: AgentCommand)
    ensures
        is_command(result, message@),
{
    match strip_prefix(message, "start-task-agents:") {
        Some(payload) => AgentCommand::StartTaskAgents { payload },
        None => AgentCommand::Unsupported,
    }
}

/// Why a command was not carried out.
#[derive(Debug)]
pub enum AgentCommandFailure {
    Unsupported,
    Failed { error: String },
    Closed,
}

impl AgentCommandFailure {
    /// What the agent is told.
    pub fn message(&self) -> (result: String)
        ensures
            result@ == match *self {
                AgentCommandFailure::Unsupported => "Unsupported agent command"@,
                AgentCommandFailure::Failed { error } => error@,
                AgentCommandFailure::Closed => "The app closed before handling the command"@,
            },
    {
        match self {
            AgentCommandFailure::Unsupported => "Unsupported agent command".to_string(),
            AgentCommandFailure::Failed { error } => error.clone(),
            AgentCommandFailure::Closed => {
                "The app closed before handling the command".to_string()
            },
        }
    }
}

// ---------------------------------------------------------------------------
// What a request may expect
// ---------------------------------------------------------------------------
/// The agent that a task names does it, else the one that the request names, else the
/// one that asks; a shell never does.
pub proof fn law_agent_chosen(
    app: BlackholesApp,
    request: StartTaskAgentsRequest,
    entry: TaskAgentRequest,
)
    ensures
        agent_for(app, request, entry) != Some(AgentKind::Shell),
        entry.agent matches Some(agent) && agent != AgentKind::Shell ==> agent_for(
            app,
            request,
            entry,
        ) == entry.agent,
        entry.agent is None && request.agent is Some && request.agent != Some(AgentKind::Shell)
            ==> agent_for(app, request, entry) == request.agent,
        entry.agent is None && request.agent is None && request.source_agent is Some
            && request.source_agent != Some(AgentKind::Shell) ==> agent_for(app, request, entry)
            == request.source_agent,
        entry.agent is None && request.agent is None && request.source_agent is None
            && request.source_terminal_id is None ==> agent_for(app, request, entry) is None,
{
}

/// The account of the agent that asks is used only by the same agent, and the directory
/// that it names comes first.
pub proof fn law_account_of_same_agent(
    app: BlackholesApp,
    request: StartTaskAgentsRequest,
    agent: AgentKind,
    home: Option<String>,
)
    requires
        request.source_agent is Some,
    ensures
        request.source_agent != Some(agent) ==> profile_for(app, request, agent, home) is None,
        request.source_agent == Some(agent) && request.source_config_dir is Some ==> profile_for(
            app,
            request,
            agent,
            home,
        ) == Some(request.source_config_dir->0@),
        request.source_config_dir is None && request.source_terminal_id is None ==> profile_for(
            app,
            request,
            agent,
            home,
        ) is None,
{
}

/// A terminal that works on the task with the agent, and runs, is the answer; else one
/// is started for the whole task in its worktrees, where there are some, and at rest.
pub proof fn law_task_step(
    app: BlackholesApp,
    task_id: Id,
    agent: AgentKind,
    config_dir: Option<String>,
    source: Option<Id>,
    worktrees_ready: bool,
    step: TaskTerminalStep,
    at: int,
)
    requires
        is_step(app, task_id, agent, config_dir, source, worktrees_ready, step),
        0 <= at < app.tasks@.len(),
        app.tasks@[at].id == task_id,
        forall|i: int| 0 <= i < at ==> (#[trigger] app.tasks@[i]).id != task_id,
    ensures
        ({
            let working = exists|i: int|
                0 <= i < app.session.terminals@.len() && (#[trigger] app.session.terminals@[i]).task_id
                    == Some(task_id) && app.session.terminals@[i].agent == agent
                    && app.session.terminals@[i].state != SessionState::Exited
                    && app.running@.contains(app.session.terminals@[i].id);
            &&& step is Reuse <==> working
            &&& step matches TaskTerminalStep::Reuse { terminal_id, .. } ==> app.running@.contains(
                terminal_id,
            )
            &&& step is Start <==> !working && app.tasks@[at].repositories@.len() > 0
                && worktrees_ready
            &&& step matches TaskTerminalStep::Start { descriptor } ==> {
                &&& descriptor.task_id == Some(task_id)
                &&& descriptor.workspace_id == app.tasks@[at].workspace_id
                &&& descriptor.repository_id is None
                &&& descriptor.agent == agent
                &&& descriptor.cwd@ == app.tasks@[at].worktree_root_path@
                &&& descriptor.state == SessionState::Idle
                &&& descriptor.agent_config_dir == config_dir
            }
        }),
{
    let wanted = works_on(app, task_id, agent);
    lemma_first_where(app.tasks@, crate::model::task_is(task_id), 0);
    assert(crate::model::task_is(task_id)(app.tasks@[at]));
    lemma_first_where(app.session.terminals@, wanted, 0);
    if let Some(found) = working_terminal(app, task_id, agent) {
        assert(wanted(app.session.terminals@[found]));
        assert(app.session.terminals@[found].task_id == Some(task_id));
    }
    if exists|i: int|
        0 <= i < app.session.terminals@.len() && (#[trigger] app.session.terminals@[i]).task_id
            == Some(task_id) && app.session.terminals@[i].agent == agent
            && app.session.terminals@[i].state != SessionState::Exited && app.running@.contains(
            app.session.terminals@[i].id,
        ) {
        let i = choose|i: int|
            0 <= i < app.session.terminals@.len() && (#[trigger] app.session.terminals@[i]).task_id
                == Some(task_id) && app.session.terminals@[i].agent == agent
                && app.session.terminals@[i].state != SessionState::Exited && app.running@.contains(
                app.session.terminals@[i].id,
            );
        assert(wanted(app.session.terminals@[i]));
    }
}

/// A terminal that started for a task is one of the session, runs, and is told of.
pub proof fn law_task_terminal_started(
    before: BlackholesApp,
    after: BlackholesApp,
    terminal: TerminalDescriptor,
)
    requires
        BlackholesApp::opens_task_terminal(before, after, terminal),
    ensures
        after.session.terminals@ == before.session.terminals@.push(terminal),
        after.running@.contains(terminal.id),
        after.app_toasts@.last().target == (AppToastTarget::Terminal {
            terminal_id: terminal.id,
            agent: terminal.agent,
        }),
        after.app_toasts@.len() == before.app_toasts@.len() + 1,
{
    let opened = choose|opened: BlackholesApp| #[trigger]
        BlackholesApp::opens_terminal(before, opened, terminal) && BlackholesApp::tells_of_start(
            opened,
            after,
            terminal,
        );
    let (tab_id, added) = choose|tab_id: Id, added: BlackholesApp| #[trigger]
        BlackholesApp::adds_terminal(before, added, terminal, tab_id)
            && BlackholesApp::records_terminal(added, opened, terminal);
    crate::ids::law_insert_unique(before.running@, terminal.id);
}

/// Every task of a request was started, reused or failed.
pub proof fn law_outcomes_counted(outcomes: Seq<TaskAgentOutcome>)
    ensures
        count_of(outcomes, TaskAgentOutcome::Started) + count_of(outcomes, TaskAgentOutcome::Reused)
            + count_of(outcomes, TaskAgentOutcome::Failed) == outcomes.len(),
        outcomes.len() > 0 && outcomes.last() == TaskAgentOutcome::Failed ==> count_of(
            outcomes,
            TaskAgentOutcome::Failed,
        ) == count_of(outcomes.drop_last(), TaskAgentOutcome::Failed) + 1,
        outcomes.len() > 0 && outcomes.last() == TaskAgentOutcome::Started ==> count_of(
            outcomes,
            TaskAgentOutcome::Started,
        ) == count_of(outcomes.drop_last(), TaskAgentOutcome::Started) + 1,
    decreases outcomes.len(),
{
    reveal(Seq::filter);
    if outcomes.len() > 0 {
        law_outcomes_counted(outcomes.drop_last());
    }
}

/// A message that starts the way a command does is that command, with what follows.
pub proof fn law_command_read(command: AgentCommand, payload: Seq<char>)
    requires
        is_command(command, "start-task-agents:"@ + payload),
    ensures
        command matches AgentCommand::StartTaskAgents { payload: read } && read@ == payload,
{
    let message = "start-task-agents:"@ + payload;
    assert(message.subrange(0, "start-task-agents:"@.len() as int) =~= "start-task-agents:"@);
    if let AgentCommand::StartTaskAgents { payload: read } = command {
        assert(message.skip("start-task-agents:"@.len() as int) =~= payload);
        assert(message.skip("start-task-agents:"@.len() as int) =~= read@);
    }
}

} // verus!
