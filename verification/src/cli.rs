//! The command line: its commands, the requests it sends to the server,
//! what it prints, and the manager that runs an agent for each pending
//! action.

use vstd::prelude::*;
use crate::storage::{Action, ActionStatus};
use crate::context::Context;
use crate::text::same_text;

verus! {

pub struct Cli {
    pub command: Command,
}

pub enum Command {
    Project(ProjectArgs),
    Task(TaskArgs),
    Round(RoundArgs),
    Server(ServerArgs),
    Manage(ManageArgs),
}

pub struct ProjectArgs {
    pub command: ProjectCommand,
}

pub enum ProjectCommand {
    List,
    Create { id: String },
    Activate { id: String },
}

pub struct TaskArgs {
    pub project_id: Option<String>,
    pub command: TaskCommand,
}

pub enum TaskCommand {
    List,
    Create { id: String },
    Activate { id: String },
}

pub struct RoundArgs {
    pub project_id: Option<String>,
    pub task_id: Option<String>,
    pub command: RoundCommand,
}

pub enum RoundCommand {
    Activate { id: String },
    Bump { from: Option<String> },
    Add { item: AddItem },
    Do { action: String },
}

pub enum AddItem {
    Input { artifact: String },
}

pub struct ServerArgs {
    pub command: ServerCommand,
}

pub enum ServerCommand {
    Start { port: u16 },
    Stop,
}

pub struct ManageArgs {
    pub project: Option<String>,
    pub agent: String,
}

// ---------------------------------------------------------------------------
// Which project, task and round a command works on

/// What a command lacks: it is not accepted without it.
#[derive(Clone, Copy, Debug, PartialEq, Eq, Structural)]
pub enum MissingContext {
    Project,
    Task,
    Round,
}

impl MissingContext {
    /// The message shown when a command is refused.
    pub fn message(&self) -> (m: &'static str)
        ensures
            *self == MissingContext::Project ==> m@ == "Project ID is required"@,
            *self == MissingContext::Task ==> m@ == "Task ID is required"@,
            *self == MissingContext::Round ==> m@ == "Round ID is required"@,
    {
        match self {
            MissingContext::Project => "Project ID is required",
            MissingContext::Task => "Task ID is required",
            MissingContext::Round => "Round ID is required",
        }
    }
}

/// The project a command works on; refused without one.
pub fn require_project(ctx: Context) -> (r: Result<String, MissingContext>)
    ensures
        ctx.project matches Some(p) ==> r == Ok::<String, MissingContext>(p),
        ctx.project is None ==> r == Err::<String, MissingContext>(MissingContext::Project),
{
    match ctx.project {
        Some(p) => Ok(p),
        None => Err(MissingContext::Project),
    }
}

/// The project and task a command works on; refused without either, the
/// project checked first.
pub fn require_task(ctx: Context) -> (r: Result<(String, String), MissingContext>)
    ensures
        ctx.project is None ==> r == Err::<(String, String), MissingContext>(
            MissingContext::Project,
        ),
        ctx.project is Some && ctx.task is None ==> r == Err::<(String, String), MissingContext>(
            MissingContext::Task,
        ),
        ctx.project is Some && ctx.task is Some ==> r == Ok::<(String, String), MissingContext>(
            (ctx.project->0, ctx.task->0),
        ),
{
    match ctx.project {
        None => Err(MissingContext::Project),
        Some(p) => match ctx.task {
            None => Err(MissingContext::Task),
            Some(t) => Ok((p, t)),
        },
    }
}

/// The round a command works on, once its project and task are known;
/// refused without one.
pub fn require_round(round: Option<String>) -> (r: Result<String, MissingContext>)
    ensures
        round matches Some(x) ==> r == Ok::<String, MissingContext>(x),
        round is None ==> r == Err::<String, MissingContext>(MissingContext::Round),
{
    match round {
        Some(x) => Ok(x),
        None => Err(MissingContext::Round),
    }
}

// ---------------------------------------------------------------------------
// Requests to the server

/// `[base]/projects`
pub fn projects_url(base: &str) -> (url: String)
    ensures
        url@ == base@ + "/projects"@,
{
    let mut url = String::from_str(base);
    url.append("/projects");
    url
}

/// `[base]/projects/[project]/tasks`
pub fn tasks_url(base: &str, project_id: &str) -> (url: String)
    ensures
        url@ == base@ + "/projects/"@ + project_id@ + "/tasks"@,
{
    let mut url = String::from_str(base);
    url.append("/projects/");
    url.append(project_id);
    url.append("/tasks");
    url
}

/// `[base]/projects/[project]/tasks/[task]/rounds`
pub fn rounds_url(base: &str, project_id: &str, task_id: &str) -> (url: String)
    ensures
        url@ == base@ + "/projects/"@ + project_id@ + "/tasks/"@ + task_id@ + "/rounds"@,
{
    let mut url = String::from_str(base);
    url.append("/projects/");
    url.append(project_id);
    url.append("/tasks/");
    url.append(task_id);
    url.append("/rounds");
    url
}

/// `[base]/projects/[project]/tasks/[task]/rounds/[round]/do`
pub fn do_url(base: &str, project_id: &str, task_id: &str, round_id: &str) -> (url: String)
    ensures
        url@ == base@ + "/projects/"@ + project_id@ + "/tasks/"@ + task_id@ + "/rounds/"@
            + round_id@ + "/do"@,
{
    let mut url = String::from_str(base);
    url.append("/projects/");
    url.append(project_id);
    url.append("/tasks/");
    url.append(task_id);
    url.append("/rounds/");
    url.append(round_id);
    url.append("/do");
    url
}

/// `[base]/projects/[project]/actions/next`
pub fn next_action_url(base: &str, project_id: &str) -> (url: String)
    ensures
        url@ == base@ + "/projects/"@ + project_id@ + "/actions/next"@,
{
    let mut url = String::from_str(base);
    url.append("/projects/");
    url.append(project_id);
    url.append("/actions/next");
    url
}

/// `[base]/projects/[project]/actions/[action]/status`
pub fn action_status_url(base: &str, project_id: &str, action_id: &str) -> (url: String)
    ensures
        url@ == base@ + "/projects/"@ + project_id@ + "/actions/"@ + action_id@ + "/status"@,
{
    let mut url = String::from_str(base);
    url.append("/projects/");
    url.append(project_id);
    url.append("/actions/");
    url.append(action_id);
    url.append("/status");
    url
}

// ---------------------------------------------------------------------------
// Listings

/// Whether `id` is the active one or the one of the current directory.
pub open spec fn spec_is_marked(
    id: Seq<char>,
    active: Option<Seq<char>>,
    current: Option<Seq<char>>,
) -> bool {
    active == Some(id) || current == Some(id)
}

/// A line of a project or task listing: `* [id]` for the active one or the
/// one of the current directory, `- [id]` for the others.
pub fn listing_line(id: &str, active: &Option<String>, current: &Option<String>) -> (line:
    String)
    ensures
        line@ == (if spec_is_marked(
            id@,
            crate::context::opt_text(*active),
            crate::context::opt_text(*current),
        ) {
            "* "@
        } else {
            "- "@
        }) + id@,
{
    let in_active = match active {
        Some(a) => same_text(a.as_str(), id),
        None => false,
    };
    let in_current = match current {
        Some(c) => same_text(c.as_str(), id),
        None => false,
    };
    let mut line = if in_active || in_current {
        String::from_str("* ")
    } else {
        String::from_str("- ")
    };
    line.append(id);
    line
}

// ---------------------------------------------------------------------------
// Running an agent

/// The shell command that runs the agent on an action: `[agent] /[action]`.
pub fn agent_command_line(agent: &str, action: &str) -> (cmd: String)
    ensures
        cmd@ == agent@ + " /"@ + action@,
{
    let mut cmd = String::from_str(agent);
    cmd.append(" /");
    cmd.append(action);
    cmd
}

/// The variables given to the agent's process, in this order:
/// `ADJENT_PROJECT_ID`, `ADJENT_TASK_ID`, `ADJENT_ROUND_ID`,
/// `ADJENT_ACTION_ID`, `ADJENT_ACTION`.
pub fn agent_environment(action: &Action) -> (env: Vec<(String, String)>)
    ensures
        env@.len() == 5,
        env@[0].0@ == "ADJENT_PROJECT_ID"@ && env@[0].1 == action.project_id,
        env@[1].0@ == "ADJENT_TASK_ID"@ && env@[1].1 == action.task_id,
        env@[2].0@ == "ADJENT_ROUND_ID"@ && env@[2].1 == action.round_id,
        env@[3].0@ == "ADJENT_ACTION_ID"@ && env@[3].1 == action.id,
        env@[4].0@ == "ADJENT_ACTION"@ && env@[4].1 == action.action,
{
    let mut env: Vec<(String, String)> = Vec::new();
    env.push((String::from_str("ADJENT_PROJECT_ID"), action.project_id.clone()));
    env.push((String::from_str("ADJENT_TASK_ID"), action.task_id.clone()));
    env.push((String::from_str("ADJENT_ROUND_ID"), action.round_id.clone()));
    env.push((String::from_str("ADJENT_ACTION_ID"), action.id.clone()));
    env.push((String::from_str("ADJENT_ACTION"), action.action.clone()));
    env
}

/// The status reported once the agent has exited.
pub open spec fn spec_outcome_status(success: bool) -> ActionStatus {
    if success {
        ActionStatus::Completed
    } else {
        ActionStatus::Failed
    }
}

// ---------------------------------------------------------------------------
// The manager loop

/// Where the manager is in its loop.
pub enum ManagerState {
    /// Asking the server for the next pending action.
    Fetching,
    /// Telling the server that `action` is running.
    MarkingRunning { action: Action },
    /// Waiting for the agent that works on action `action_id`.
    RunningAgent { action_id: String },
    /// Telling the server how the agent's work ended.
    Reporting,
    /// Waiting before asking again.
    Sleeping,
}

/// What happened since the last command.
pub enum ManagerEvent {
    /// The server answered with the next action, or with none.
    NextFetched(Option<Action>),
    /// The server refused to give the next action.
    FetchRefused,
    /// A status update was sent.
    StatusSent,
    /// The agent exited, successfully or not.
    AgentExited { success: bool },
    /// The wait is over.
    Slept,
}

/// What the manager does next.
pub enum ManagerCommand {
    FetchNext,
    SendStatus { action_id: String, status: ActionStatus },
    SpawnAgent { action: Action },
    Sleep,
}

/// One step of the manager: fetch the next pending action; when there is
/// one, mark it running, run the agent, and report `completed` or `failed`
/// by its exit; then wait and fetch again. An event that does not answer the
/// command of the state (or a refused fetch) leads to waiting.
pub open spec fn spec_manager_step(state: ManagerState, event: ManagerEvent) -> (
    ManagerState,
    ManagerCommand,
) {
    match (state, event) {
        (ManagerState::Fetching, ManagerEvent::NextFetched(Some(a))) => (
            ManagerState::MarkingRunning { action: a },
            ManagerCommand::SendStatus { action_id: a.id, status: ActionStatus::Running },
        ),
        (ManagerState::MarkingRunning { action }, ManagerEvent::StatusSent) => (
            ManagerState::RunningAgent { action_id: action.id },
            ManagerCommand::SpawnAgent { action },
        ),
        (ManagerState::RunningAgent { action_id }, ManagerEvent::AgentExited { success }) => (
            ManagerState::Reporting,
            ManagerCommand::SendStatus { action_id, status: spec_outcome_status(success) },
        ),
        (ManagerState::Sleeping, ManagerEvent::Slept) => (
            ManagerState::Fetching,
            ManagerCommand::FetchNext,
        ),
        _ => (ManagerState::Sleeping, ManagerCommand::Sleep),
    }
}

/// The manager's first state and command.
pub fn manager_start() -> (r: (ManagerState, ManagerCommand))
    ensures
        r.0 is Fetching,
        r.1 is FetchNext,
{
    (ManagerState::Fetching, ManagerCommand::FetchNext)
}

/// The manager's next state and command, given what happened.
pub fn manager_step(state: ManagerState, event: ManagerEvent) -> (r: (
    ManagerState,
    ManagerCommand,
))
    ensures
        r == spec_manager_step(state, event),
{
    match (state, event) {
        (ManagerState::Fetching, ManagerEvent::NextFetched(Some(a))) => {
            let id = a.id.clone();
            (
                ManagerState::MarkingRunning { action: a },
                ManagerCommand::SendStatus { action_id: id, status: ActionStatus::Running },
            )
        },
        (ManagerState::MarkingRunning { action }, ManagerEvent::StatusSent) => {
            let id = action.id.clone();
            (ManagerState::RunningAgent { action_id: id }, ManagerCommand::SpawnAgent { action })
        },
        (ManagerState::RunningAgent { action_id }, ManagerEvent::AgentExited { success }) => {
            let status = if success {
                ActionStatus::Completed
            } else {
                ActionStatus::Failed
            };
            (ManagerState::Reporting, ManagerCommand::SendStatus { action_id, status })
        },
        (ManagerState::Sleeping, ManagerEvent::Slept) => (
            ManagerState::Fetching,
            ManagerCommand::FetchNext,
        ),
        _ => (ManagerState::Sleeping, ManagerCommand::Sleep),
    }
}

/// A claimed action goes through the manager as the documentation says: it
/// is marked `running`, the agent is spawned on it, its status becomes
/// `completed` when the agent succeeds and `failed` otherwise, and the
/// manager then waits before fetching again.
pub proof fn law_manager_runs_claimed_action(a: Action, success: bool)
    ensures
        ({
            let (s1, c1) = spec_manager_step(
                ManagerState::Fetching,
                ManagerEvent::NextFetched(Some(a)),
            );
            let (s2, c2) = spec_manager_step(s1, ManagerEvent::StatusSent);
            let (s3, c3) = spec_manager_step(s2, ManagerEvent::AgentExited { success });
            let (s4, c4) = spec_manager_step(s3, ManagerEvent::StatusSent);
            &&& c1 == ManagerCommand::SendStatus { action_id: a.id, status: ActionStatus::Running }
            &&& c2 == ManagerCommand::SpawnAgent { action: a }
            &&& c3 == ManagerCommand::SendStatus {
                action_id: a.id,
                status: spec_outcome_status(success),
            }
            &&& c4 is Sleep
            &&& s4 is Sleeping
        }),
{
}

/// With nothing to do (no pending action, or the server refused), the
/// manager waits and then fetches again.
pub proof fn law_manager_waits_when_idle(refused: bool)
    ensures
        ({
            let event = if refused {
                ManagerEvent::FetchRefused
            } else {
                ManagerEvent::NextFetched(None)
            };
            let (s1, c1) = spec_manager_step(ManagerState::Fetching, event);
            let (s2, c2) = spec_manager_step(s1, ManagerEvent::Slept);
            &&& c1 is Sleep
            &&& s2 is Fetching
            &&& c2 is FetchNext
        }),
{
}

} // verus!
