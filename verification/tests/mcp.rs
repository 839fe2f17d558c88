use adjent::mcp::{
    artifact_listing, file_not_found_message, session_from_action, session_headers,
    write_confirmation, McpError,
};
use adjent::outside::Timestamp;
use adjent::storage::{Action, ActionStatus};

#[test]
fn headers_are_checked_project_first() {
    assert_eq!(session_headers(None, None).err(), Some(McpError::MissingProjectHeader));
    assert_eq!(session_headers(Some("p1".into()), None).err(), Some(McpError::MissingActionHeader));
    assert_eq!(
        session_headers(Some("p1".into()), Some("a1".into())).ok(),
        Some(("p1".to_string(), "a1".to_string()))
    );
}

#[test]
fn session_comes_from_the_action() {
    let a = Action {
        id: "a1".into(),
        project_id: "p1".into(),
        task_id: "t1".into(),
        round_id: "0".into(),
        action: "test".into(),
        status: ActionStatus::Pending,
        created_at: Timestamp { secs: 0, nanos: 0 },
    };
    let ctx = session_from_action(Some(a)).ok().unwrap();
    assert_eq!((ctx.project_id.as_str(), ctx.task_id.as_str(), ctx.round_id.as_str()), ("p1", "t1", "0"));
    assert_eq!(session_from_action(None).err(), Some(McpError::ActionNotFound));
}

#[test]
fn tool_answers() {
    assert_eq!(artifact_listing(&vec![]), "");
    assert_eq!(artifact_listing(&vec!["test.txt".into()]), "test.txt");
    assert_eq!(artifact_listing(&vec!["a".into(), "b".into(), "c".into()]), "a\nb\nc");
    assert_eq!(write_confirmation("test.txt"), "Successfully wrote test.txt");
    assert_eq!(file_not_found_message("x.md"), "File not found: x.md");
    assert_eq!(file_not_found_message("notes/plan.md"), "File not found: notes/plan.md");
    assert!(McpError::InvalidFilename.message().contains("relative path"));
    assert_eq!(McpError::ActionNotFound.message(), "Action not found");
    assert!(!McpError::MissingRequestParts.is_invalid_params());
    assert!(McpError::MissingActionHeader.is_invalid_params());
}
