use adjent::outside::Timestamp;
use adjent::server::{
    created_round, date_stamp, listed_round, new_action, new_task, pending_action, task_from_id, task_id_for,
    task_name_of, TaskError,
};
use adjent::storage::ActionStatus;

#[test]
fn task_names_from_ids() {
    assert_eq!(task_name_of("20260302-foo"), "foo");
    assert_eq!(task_name_of("t1"), "t1");
    assert_eq!(task_name_of("a-b-c"), "b-c");
    assert_eq!(task_name_of("abc-"), "");
    let t = task_from_id("20260606-update".to_string());
    assert_eq!(t.id, "20260606-update");
    assert_eq!(t.name, "update");
}

#[test]
fn task_ids_from_names() {
    assert_eq!(task_id_for("20260302", "foo"), "20260302-foo");
    assert_eq!(task_name_of(&task_id_for("20260302", "foo")), "foo");
}

#[test]
fn new_task_is_dated_today() {
    let task = new_task("foo".to_string()).unwrap();
    assert_eq!(task.name, "foo");
    assert_eq!(task.id.len(), 12);
    assert!(task.id.ends_with("-foo"));
    assert!(task.id[..8].chars().all(|c| c.is_ascii_digit()));
    assert_eq!(new_task("bad name".to_string()).err(), Some(TaskError::InvalidName));
    assert_eq!(new_task("".to_string()).err(), Some(TaskError::InvalidName));
}

#[test]
fn rounds_as_listed_and_created() {
    let r = listed_round("0".to_string());
    assert_eq!((r.id.as_str(), r.status.as_str()), ("0", "active"));
    let r = created_round("1".to_string());
    assert_eq!((r.id.as_str(), r.status.as_str()), ("1", "pending"));
}

#[test]
fn scheduled_actions_are_pending() {
    let a = pending_action(
        "a1".into(),
        "p".into(),
        "t".into(),
        "0".into(),
        "develop".into(),
        Timestamp { secs: 7, nanos: 8 },
    );
    assert_eq!(a.status, ActionStatus::Pending);
    assert_eq!(a.created_at, Timestamp { secs: 7, nanos: 8 });
    let b = new_action("p".into(), "t".into(), "0".into(), "develop".into());
    let c = new_action("p".into(), "t".into(), "0".into(), "develop".into());
    assert_eq!(b.status, ActionStatus::Pending);
    assert_eq!(b.id.len(), 36);
    assert_eq!(b.id.as_bytes()[8], b'-');
    assert_ne!(b.id, c.id);
    assert!(b.created_at.secs > 1_600_000_000);
    assert!(b.created_at.nanos < 1_000_000_000);
    assert_eq!((b.project_id.as_str(), b.task_id.as_str(), b.round_id.as_str(), b.action.as_str()), ("p", "t", "0", "develop"));
}

#[test]
fn date_stamps() {
    assert_eq!(date_stamp(2026, 3, 2), "20260302");
    assert_eq!(date_stamp(1999, 12, 31), "19991231");
    assert_eq!(date_stamp(987, 1, 9), "09870109");
    assert_eq!(date_stamp(12345, 6, 7), "+123450607");
    assert_eq!(date_stamp(0, 1, 1), "00000101");
    assert_eq!(date_stamp(-1, 12, 31), "-00011231");
    assert_eq!(date_stamp(-12345, 2, 3), "-123450203");
    for (y, m, d) in [(2026, 3, 2), (987, 1, 9), (12345, 6, 7), (0, 1, 1), (-1, 12, 31), (-44, 3, 15), (-12345, 2, 3)] {
        let date = chrono::NaiveDate::from_ymd_opt(y, m, d).unwrap();
        assert_eq!(date_stamp(y, m, d), date.format("%Y%m%d").to_string());
    }
}
