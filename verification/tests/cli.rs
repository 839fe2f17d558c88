use adjent::context::Context;
use adjent::cli::{
    action_status_url, agent_command_line, agent_environment, do_url, listing_line, manager_start,
    manager_step, next_action_url, require_project, require_round, require_task, MissingContext, projects_url, rounds_url, tasks_url, ManagerCommand,
    ManagerEvent, ManagerState,
};
use adjent::outside::Timestamp;
use adjent::storage::{Action, ActionStatus};

fn action() -> Action {
    Action {
        id: "a1".into(),
        project_id: "p1".into(),
        task_id: "t1".into(),
        round_id: "0".into(),
        action: "develop".into(),
        status: ActionStatus::Assigned,
        created_at: Timestamp { secs: 0, nanos: 0 },
    }
}

#[test]
fn urls() {
    let b = "http://localhost:8080";
    assert_eq!(projects_url(b), "http://localhost:8080/projects");
    assert_eq!(tasks_url(b, "p1"), "http://localhost:8080/projects/p1/tasks");
    assert_eq!(rounds_url(b, "p1", "t1"), "http://localhost:8080/projects/p1/tasks/t1/rounds");
    assert_eq!(do_url(b, "p1", "t1", "0"), "http://localhost:8080/projects/p1/tasks/t1/rounds/0/do");
    assert_eq!(next_action_url(b, "p1"), "http://localhost:8080/projects/p1/actions/next");
    assert_eq!(action_status_url(b, "p1", "a1"), "http://localhost:8080/projects/p1/actions/a1/status");
}

#[test]
fn listing_marks_active_and_current() {
    assert_eq!(listing_line("p1", &Some("p1".into()), &None), "* p1");
    assert_eq!(listing_line("p1", &None, &Some("p1".into())), "* p1");
    assert_eq!(listing_line("p2", &Some("p1".into()), &Some("p3".into())), "- p2");
    assert_eq!(listing_line("p2", &None, &None), "- p2");
}

#[test]
fn agent_invocation() {
    assert_eq!(agent_command_line("gemini-cli", "develop"), "gemini-cli /develop");
    let env = agent_environment(&action());
    let expected: Vec<(String, String)> = vec![
        ("ADJENT_PROJECT_ID".into(), "p1".into()),
        ("ADJENT_TASK_ID".into(), "t1".into()),
        ("ADJENT_ROUND_ID".into(), "0".into()),
        ("ADJENT_ACTION_ID".into(), "a1".into()),
        ("ADJENT_ACTION".into(), "develop".into()),
    ];
    assert_eq!(env, expected);
}

fn run(success: bool) -> Vec<String> {
    let mut log = vec![];
    let (mut state, mut cmd) = manager_start();
    let events = vec![
        ManagerEvent::NextFetched(Some(action())),
        ManagerEvent::StatusSent,
        ManagerEvent::AgentExited { success },
        ManagerEvent::StatusSent,
        ManagerEvent::Slept,
    ];
    for ev in events {
        log.push(describe(&cmd));
        let (s, c) = manager_step(state, ev);
        state = s;
        cmd = c;
    }
    log.push(describe(&cmd));
    assert!(matches!(state, ManagerState::Fetching));
    log
}

fn describe(c: &ManagerCommand) -> String {
    match c {
        ManagerCommand::FetchNext => "fetch".into(),
        ManagerCommand::SendStatus { action_id, status } => format!("status {} {:?}", action_id, status),
        ManagerCommand::SpawnAgent { action } => format!("spawn {}", action.id),
        ManagerCommand::Sleep => "sleep".into(),
    }
}

#[test]
fn manager_reports_completion() {
    assert_eq!(
        run(true),
        vec!["fetch", "status a1 Running", "spawn a1", "status a1 Completed", "sleep", "fetch"]
    );
}

#[test]
fn manager_reports_failure() {
    assert_eq!(
        run(false),
        vec!["fetch", "status a1 Running", "spawn a1", "status a1 Failed", "sleep", "fetch"]
    );
}

#[test]
fn manager_sleeps_when_idle() {
    let (s, c) = manager_step(ManagerState::Fetching, ManagerEvent::NextFetched(None));
    assert!(matches!(c, ManagerCommand::Sleep));
    let (s, c) = manager_step(s, ManagerEvent::Slept);
    assert!(matches!(c, ManagerCommand::FetchNext));
    let (_, c) = manager_step(s, ManagerEvent::FetchRefused);
    assert!(matches!(c, ManagerCommand::Sleep));
}

#[test]
fn manager_waits_on_an_unexpected_event() {
    let (s, c) = manager_step(ManagerState::Fetching, ManagerEvent::Slept);
    assert!(matches!(s, ManagerState::Sleeping));
    assert!(matches!(c, ManagerCommand::Sleep));
    let (s, c) = manager_step(ManagerState::Sleeping, ManagerEvent::StatusSent);
    assert!(matches!(s, ManagerState::Sleeping));
    assert!(matches!(c, ManagerCommand::Sleep));
    let (s, c) = manager_step(ManagerState::Reporting, ManagerEvent::AgentExited { success: true });
    assert!(matches!(s, ManagerState::Sleeping));
    assert!(matches!(c, ManagerCommand::Sleep));
}

#[test]
fn commands_need_their_context() {
    let none = Context::default();
    assert_eq!(require_project(none.clone()).err(), Some(MissingContext::Project));
    assert_eq!(require_task(none.clone()).err(), Some(MissingContext::Project));
    let p = Context { project: Some("p1".into()), task: None, round: None };
    assert_eq!(require_project(p.clone()).ok().as_deref(), Some("p1"));
    assert_eq!(require_task(p).err(), Some(MissingContext::Task));
    let pt = Context { project: Some("p1".into()), task: Some("t1".into()), round: None };
    assert_eq!(require_task(pt).ok(), Some(("p1".to_string(), "t1".to_string())));
    assert_eq!(require_round(None).err(), Some(MissingContext::Round));
    assert_eq!(require_round(Some("0".into())).ok().as_deref(), Some("0"));
    assert_eq!(MissingContext::Task.message(), "Task ID is required");
}
