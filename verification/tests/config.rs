use adjent::context::{
    activate_project, activate_round, activate_task, adjent_home_from, detect_context,
    resolve_context, Context,
};
use std::path::PathBuf;

fn detect(cwd: &PathBuf, home: &PathBuf) -> Context {
    detect_context(cwd.to_str().unwrap(), home.to_str().unwrap())
}

#[test]
fn test_detect_context_inside_project() {
    let home = PathBuf::from("/home/user");
    let cwd = PathBuf::from("/home/user/state/projects/proj1/tasks/task1/rounds/0");
    let ctx = detect(&cwd, &home);
    assert_eq!(ctx.project, Some("proj1".to_string()));
    assert_eq!(ctx.task, Some("task1".to_string()));
    assert_eq!(ctx.round, Some("0".to_string()));
}

#[test]
fn test_detect_context_partial() {
    let home = PathBuf::from("/home/user");
    let cwd = PathBuf::from("/home/user/state/projects/proj1");
    let ctx = detect(&cwd, &home);
    assert_eq!(ctx.project, Some("proj1".to_string()));
    assert_eq!(ctx.task, None);
    assert_eq!(ctx.round, None);
}

#[test]
fn test_detect_context_outside() {
    let home = PathBuf::from("/home/user");
    let cwd = PathBuf::from("/home/other");
    let ctx = detect(&cwd, &home);
    assert_eq!(ctx.project, None);
}

#[test]
fn detect_context_documented_example() {
    let ctx = detect_context(
        "/home/alice/.adjent/state/projects/foo/tasks/20260606-update-docs/rounds/0/",
        "/home/alice/.adjent",
    );
    assert_eq!(ctx.project.as_deref(), Some("foo"));
    assert_eq!(ctx.task.as_deref(), Some("20260606-update-docs"));
    assert_eq!(ctx.round.as_deref(), Some("0"));
}

#[test]
fn detect_context_task_without_round() {
    let ctx = detect_context("/h/state/projects/p/tasks/t", "/h");
    assert_eq!(ctx.project.as_deref(), Some("p"));
    assert_eq!(ctx.task.as_deref(), Some("t"));
    assert_eq!(ctx.round, None);
}

#[test]
fn detect_context_needs_state_projects() {
    let ctx = detect_context("/h/state/other/p", "/h");
    assert_eq!(ctx, Context::default());
    let ctx = detect_context("/h/state/projects", "/h");
    assert_eq!(ctx, Context::default());
}

#[test]
fn detect_context_round_without_tasks_keyword() {
    // The round is read from the seventh component whenever the sixth is
    // `rounds`, whatever the fourth is.
    let ctx = detect_context("/h/state/projects/p/other/t/rounds/3", "/h");
    assert_eq!(ctx.project.as_deref(), Some("p"));
    assert_eq!(ctx.task, None);
    assert_eq!(ctx.round.as_deref(), Some("3"));
}

#[test]
fn detect_context_ignores_dots_and_repeated_separators() {
    let ctx = detect_context("/h//state/./projects/p/", "/h/");
    assert_eq!(ctx.project.as_deref(), Some("p"));
}

#[test]
fn detect_context_prefix_is_by_component() {
    // `/home/user2` is not under `/home/user`.
    let ctx = detect_context("/home/user2/state/projects/p", "/home/user");
    assert_eq!(ctx.project, None);
}

#[test]
fn resolve_context_prefers_explicit_then_directory_then_active() {
    let cwd = Context { project: Some("cp".into()), task: None, round: Some("cr".into()) };
    let active = Context { project: Some("ap".into()), task: Some("at".into()), round: Some("ar".into()) };
    let ctx = resolve_context(Some("ep".into()), None, None, cwd, active);
    assert_eq!(ctx.project.as_deref(), Some("ep"));
    assert_eq!(ctx.task.as_deref(), Some("at"));
    assert_eq!(ctx.round.as_deref(), Some("cr"));
}

#[test]
fn resolve_context_all_absent() {
    let ctx = resolve_context(None, None, None, Context::default(), Context::default());
    assert_eq!(ctx, Context::default());
}

#[test]
fn adjent_home_prefers_variable() {
    let home = adjent_home_from(Some("/tmp".into()), Some("/home/user".into()));
    assert!(home.unwrap().contains("tmp"));
}

#[test]
fn adjent_home_falls_back_to_home() {
    let home = adjent_home_from(None, Some("/home/user".into()));
    assert_eq!(PathBuf::from(home.unwrap()), PathBuf::from("/home/user/.adjent"));
    let home = adjent_home_from(None, Some("/home/user/".into()));
    assert_eq!(home.as_deref(), Some("/home/user/.adjent"));
}

#[test]
fn adjent_home_missing() {
    assert_eq!(adjent_home_from(None, None), None);
}

#[test]
fn activation_updates() {
    let current = Context { project: Some("p0".into()), task: Some("t0".into()), round: Some("r0".into()) };
    let next = activate_project(current.clone(), "p1".into());
    assert_eq!(next, Context { project: Some("p1".into()), task: Some("t0".into()), round: Some("r0".into()) });
    let next = activate_task(current.clone(), "p2".into(), "t2".into());
    assert_eq!(next, Context { project: Some("p2".into()), task: Some("t2".into()), round: Some("r0".into()) });
    let next = activate_round("p3".into(), "t3".into(), "r3".into());
    assert_eq!(next, Context { project: Some("p3".into()), task: Some("t3".into()), round: Some("r3".into()) });
}
