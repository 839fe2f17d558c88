use std::collections::BTreeMap;

use adjent::context::{activate_task, Context};
use adjent::outside::Timestamp;
use adjent::storage::{
    claim_if_pending, claim_step, creation_order, ClaimStep, directory_names, file_names, is_action_file_name,
    is_valid_identifier, Action, ActionStatus, ArtifactType, DirEntryInfo, FsOp, LocalStorage,
    StorageError,
};

fn storage() -> LocalStorage {
    LocalStorage::new("/home/u/.adjent".to_string())
}

fn action(id: &str, status: ActionStatus) -> Action {
    Action {
        id: id.into(),
        project_id: "p1".into(),
        task_id: "t1".into(),
        round_id: "0".into(),
        action: "develop".into(),
        status,
        created_at: Timestamp { secs: 1_700_000_000, nanos: 5 },
    }
}

fn entry(name: Option<&str>, is_dir: bool, is_file: bool) -> DirEntryInfo {
    DirEntryInfo { name: name.map(|s| s.to_string()), is_dir, is_file }
}

#[test]
fn layout_of_the_local_state() {
    let s = storage();
    assert_eq!(s.projects_dir(), "/home/u/.adjent/state/projects");
    assert_eq!(s.tasks_dir("p1"), "/home/u/.adjent/state/projects/p1/tasks");
    assert_eq!(s.actions_dir("p1"), "/home/u/.adjent/state/projects/p1/actions");
    assert_eq!(s.rounds_dir("p1", "t1"), "/home/u/.adjent/state/projects/p1/tasks/t1/rounds");
    assert_eq!(s.round_dir("p1", "t1", "2"), "/home/u/.adjent/state/projects/p1/tasks/t1/rounds/2");
    assert_eq!(s.action_file("p1", "a1"), "/home/u/.adjent/state/projects/p1/actions/a1.json");
    assert_eq!(s.active_context_file(), "/home/u/.adjent/active.json");
    assert_eq!(
        s.get_artifact_path("p1", "t1", "0", ArtifactType::Outputs, "plan.md").unwrap(),
        "/home/u/.adjent/state/projects/p1/tasks/t1/rounds/0/outputs/plan.md"
    );
    assert_eq!(
        s.artifact_dir("p1", "t1", "0", ArtifactType::Logs),
        "/home/u/.adjent/state/projects/p1/tasks/t1/rounds/0/logs"
    );
}

fn created_dirs(ops: &[FsOp]) -> Vec<String> {
    ops.iter()
        .filter_map(|o| match o {
            FsOp::CreateDir { path } => Some(path.clone()),
            _ => None,
        })
        .collect()
}

#[test]
fn bump_first_round_is_zero() {
    let s = storage();
    let bump = s.bump_round("p1", "t1", &vec![], None).unwrap();
    assert_eq!(bump.round_id, "0");
    let r = "/home/u/.adjent/state/projects/p1/tasks/t1/rounds/0";
    assert_eq!(
        created_dirs(&bump.ops),
        vec![format!("{}/inputs", r), format!("{}/outputs", r), format!("{}/logs", r)]
    );
    assert_eq!(bump.ops.len(), 4);
    match &bump.ops[3] {
        FsOp::WriteFile { dir, name, content } => {
            assert_eq!(dir, &format!("{}/inputs", r));
            assert_eq!(name, "instructions.md");
            assert_eq!(content, "");
        }
        _ => panic!("expected the instructions file last"),
    }
}

#[test]
fn bump_from_largest_round() {
    let s = storage();
    let rounds = vec!["0".to_string(), "2".to_string(), "abc".to_string(), "1".to_string()];
    let bump = s.bump_round("p1", "t1", &rounds, None).unwrap();
    assert_eq!(bump.round_id, "3");
    let base = "/home/u/.adjent/state/projects/p1/tasks/t1/rounds";
    assert_eq!(bump.ops.len(), 6);
    match (&bump.ops[3], &bump.ops[4]) {
        (FsOp::CopyFiles { from: f1, to: t1 }, FsOp::CopyFiles { from: f2, to: t2 }) => {
            assert_eq!(f1, &format!("{}/2/inputs", base));
            assert_eq!(f2, &format!("{}/2/outputs", base));
            assert_eq!(t1, &format!("{}/3/inputs", base));
            assert_eq!(t2, &format!("{}/3/inputs", base));
        }
        _ => panic!("expected the two copies"),
    }
}

#[test]
fn bump_from_given_round() {
    let s = storage();
    let rounds = vec!["0".to_string(), "5".to_string()];
    assert_eq!(s.bump_round("p1", "t1", &rounds, Some("5".into())).unwrap().round_id, "6");
    assert_eq!(s.bump_round("p1", "t1", &rounds, Some("+7".into())).unwrap().round_id, "8");
    // A source that is not a number starts again at 0.
    let bump = s.bump_round("p1", "t1", &vec!["5".to_string()], Some("draft".into())).unwrap();
    assert_eq!(bump.round_id, "0");
    match &bump.ops[3] {
        FsOp::CopyFiles { from, .. } => {
            assert_eq!(from, "/home/u/.adjent/state/projects/p1/tasks/t1/rounds/draft/inputs")
        }
        _ => panic!("expected a copy"),
    }
}

#[test]
fn bump_source_is_printed_back_in_decimal() {
    let s = storage();
    let bump = s.bump_round("p1", "t1", &vec!["007".to_string()], None).unwrap();
    assert_eq!(bump.round_id, "8");
    match &bump.ops[3] {
        FsOp::CopyFiles { from, .. } => {
            assert_eq!(from, "/home/u/.adjent/state/projects/p1/tasks/t1/rounds/7/inputs")
        }
        _ => panic!("expected a copy"),
    }
}

#[test]
fn listing_keeps_readable_directories_in_order() {
    let entries = vec![
        entry(Some("b"), true, false),
        entry(Some("file.txt"), false, true),
        entry(None, true, false),
        entry(Some("a"), true, false),
    ];
    assert_eq!(directory_names(&entries), vec!["b".to_string(), "a".to_string()]);
    assert_eq!(file_names(&entries), vec!["file.txt".to_string()]);
}

#[test]
fn identifiers() {
    assert!(is_valid_identifier("p1"));
    assert!(is_valid_identifier("Foo"));
    assert!(!is_valid_identifier(""));
    assert!(!is_valid_identifier("1p"));
    assert!(!is_valid_identifier("a-b"));
    assert!(!is_valid_identifier("../x"));
}

#[test]
fn create_project_checks_the_id() {
    let s = storage();
    match s.create_project("p1") {
        Ok(ops) => match &ops[..] {
            [FsOp::CreateDir { path }] => assert_eq!(path, "/home/u/.adjent/state/projects/p1"),
            _ => panic!("expected one directory"),
        },
        Err(e) => panic!("unexpected {:?}", e),
    }
    assert_eq!(s.create_project("bad id").err(), Some(StorageError::InvalidProjectId));
}

#[test]
fn create_task_makes_its_directory() {
    let s = storage();
    let ops = s.create_task("p1", "t1");
    assert_eq!(created_dirs(&ops), vec!["/home/u/.adjent/state/projects/p1/tasks/t1".to_string()]);
}

#[test]
fn claiming_only_takes_pending_actions() {
    let claimed = claim_if_pending(action("a1", ActionStatus::Pending)).unwrap();
    assert_eq!(claimed.status, ActionStatus::Assigned);
    assert_eq!(claimed.id, "a1");
    assert!(claim_if_pending(action("a2", ActionStatus::Assigned)).is_none());
    assert!(claim_if_pending(action("a3", ActionStatus::Running)).is_none());
    assert!(claim_if_pending(action("a4", ActionStatus::Completed)).is_none());
    assert!(claim_if_pending(action("a5", ActionStatus::Failed)).is_none());
}

#[test]
fn update_status_of_stored_action() {
    let s = storage();
    let (path, updated) = s
        .update_action_status("p1", Some(action("a1", ActionStatus::Assigned)), ActionStatus::Running)
        .unwrap();
    assert_eq!(updated.status, ActionStatus::Running);
    assert_eq!(updated.id, "a1");
    assert_eq!(path, "/home/u/.adjent/state/projects/p1/actions/a1.json");
    assert_eq!(
        s.update_action_status("p1", None, ActionStatus::Running).err(),
        Some(StorageError::ActionNotFound)
    );
}

#[test]
fn action_files_are_json() {
    for name in ["a.json", "x.y.json", ".json", "json", "a.json.bak", "a.JSON", "..json", "a"] {
        let by_std = std::path::Path::new("/d").join(name).extension().and_then(|e| e.to_str()) == Some("json");
        assert_eq!(is_action_file_name(name), by_std, "{:?}", name);
    }
}

#[test]
fn creation_order_is_stable_with_missing_times_first() {
    let keys = vec![Some(30), None, Some(10), Some(30), None, Some(20)];
    assert_eq!(creation_order(&keys), vec![1, 4, 2, 5, 0, 3]);
    assert_eq!(creation_order(&vec![]), Vec::<usize>::new());
}

/// Directories and the files in them, changed by the operations as the
/// executable does.
fn apply(fs: &mut BTreeMap<String, BTreeMap<String, String>>, ops: &[FsOp]) {
    for op in ops {
        match op {
            FsOp::CreateDir { path } => {
                fs.entry(path.clone()).or_default();
            }
            FsOp::CopyFiles { from, to } => {
                if let Some(files) = fs.get(from).cloned() {
                    let dst = fs.get_mut(to).expect("destination exists");
                    for (k, v) in files {
                        dst.insert(k, v);
                    }
                }
            }
            FsOp::WriteFile { dir, name, content } => {
                fs.get_mut(dir).expect("directory exists").insert(name.clone(), content.clone());
            }
        }
    }
}

/// What listing directory `dir` of the model finds: the directories right
/// below it, then the files in it.
fn listing(fs: &BTreeMap<String, BTreeMap<String, String>>, dir: &str) -> Vec<DirEntryInfo> {
    let prefix = format!("{}/", dir);
    let mut dirs: Vec<String> = Vec::new();
    for key in fs.keys() {
        if let Some(rest) = key.strip_prefix(&prefix) {
            let first = rest.split('/').next().unwrap_or("").to_string();
            if !first.is_empty() && !dirs.contains(&first) {
                dirs.push(first);
            }
        }
    }
    let mut entries: Vec<DirEntryInfo> = dirs.iter().map(|d| entry(Some(d), true, false)).collect();
    if let Some(files) = fs.get(dir) {
        for name in files.keys() {
            entries.push(entry(Some(name), false, true));
        }
    }
    entries
}

/// A task created as the executable creates one: its directory, then its
/// first round.
fn create_task_in(fs: &mut BTreeMap<String, BTreeMap<String, String>>, s: &LocalStorage, p: &str, t: &str) {
    apply(fs, &s.create_task(p, t));
    let rounds = directory_names(&listing(fs, &s.rounds_dir(p, t)));
    let bump = s.bump_round(p, t, &rounds, None).unwrap();
    apply(fs, &bump.ops);
}

#[test]
fn test_list_projects_empty() {
    let s = LocalStorage::new("/tmp/adjent-empty".to_string());
    let fs: BTreeMap<String, BTreeMap<String, String>> = BTreeMap::new();
    assert!(directory_names(&listing(&fs, &s.projects_dir())).is_empty());
}

#[test]
fn test_create_and_list_project() {
    let s = LocalStorage::new("/tmp/adjent-projects".to_string());
    let mut fs = BTreeMap::new();
    apply(&mut fs, &s.create_project("p1").unwrap());
    let projects = directory_names(&listing(&fs, &s.projects_dir()));
    assert_eq!(projects, vec!["p1".to_string()]);
}

#[test]
fn test_active_context() {
    let s = LocalStorage::new("/tmp/adjent-context".to_string());
    let ctx = Context { project: Some("p1".into()), task: Some("t1".into()), round: None };
    assert_eq!(activate_task(Context::default(), "p1".into(), "t1".into()), ctx);
    let mut saved: BTreeMap<String, Context> = BTreeMap::new();
    saved.insert(s.active_context_file(), ctx.clone());
    let loaded = saved.get(&s.active_context_file()).cloned().unwrap_or_default();
    assert_eq!(loaded, ctx);
    assert_eq!(s.active_context_file(), "/tmp/adjent-context/active.json");
}

#[test]
fn test_create_and_list_tasks() {
    let s = LocalStorage::new("/tmp/adjent-tasks".to_string());
    let mut fs = BTreeMap::new();
    apply(&mut fs, &s.create_project("p1").unwrap());
    create_task_in(&mut fs, &s, "p1", "t1");
    let tasks = directory_names(&listing(&fs, &s.tasks_dir("p1")));
    assert_eq!(tasks, vec!["t1".to_string()]);
}

#[test]
fn test_bump_round() {
    let s = LocalStorage::new("/r".to_string());
    let mut fs = BTreeMap::new();
    apply(&mut fs, &s.create_project("p1").unwrap());
    create_task_in(&mut fs, &s, "p1", "t1");
    let rounds = directory_names(&listing(&fs, &s.rounds_dir("p1", "t1")));
    assert_eq!(rounds, vec!["0".to_string()]);
    let r0 = "/r/state/projects/p1/tasks/t1/rounds/0";
    fs.get_mut(&format!("{}/inputs", r0)).unwrap().insert("data.txt".into(), "hello".into());
    fs.get_mut(&format!("{}/outputs", r0)).unwrap().insert("result.txt".into(), "world".into());
    fs.get_mut(&format!("{}/inputs", r0)).unwrap().insert("plan.md".into(), "old".into());
    fs.get_mut(&format!("{}/outputs", r0)).unwrap().insert("plan.md".into(), "new".into());
    fs.get_mut(&format!("{}/inputs", r0)).unwrap().insert("instructions.md".into(), "do it".into());

    let next = s.bump_round("p1", "t1", &rounds, None).unwrap();
    assert_eq!(next.round_id, "1");
    apply(&mut fs, &next.ops);
    let inputs = &fs["/r/state/projects/p1/tasks/t1/rounds/1/inputs"];
    assert_eq!(inputs["data.txt"], "hello");
    assert_eq!(inputs["result.txt"], "world");
    assert_eq!(inputs["plan.md"], "new");
    assert_eq!(inputs["instructions.md"], "");
    assert!(fs.contains_key("/r/state/projects/p1/tasks/t1/rounds/1/outputs"));
    assert!(fs.contains_key("/r/state/projects/p1/tasks/t1/rounds/1/logs"));
}

#[test]
fn bump_refuses_an_existing_round() {
    let s = storage();
    let rounds = vec!["0".to_string(), "1".to_string(), "2".to_string()];
    assert_eq!(s.bump_round("p1", "t1", &rounds, Some("0".into())).err(), Some(StorageError::RoundExists));
    assert_eq!(
        s.bump_round("p1", "t1", &vec!["0".to_string()], Some("draft".into())).err(),
        Some(StorageError::RoundExists)
    );
    assert_eq!(s.bump_round("p1", "t1", &rounds, None).unwrap().round_id, "3");
}

#[test]
fn bump_refuses_to_count_past_the_largest_round_number() {
    let s = storage();
    let top = vec!["7".to_string(), "4294967295".to_string()];
    assert_eq!(s.bump_round("p1", "t1", &top, None).err(), Some(StorageError::RoundNumberOverflow));
    assert_eq!(
        s.bump_round("p1", "t1", &vec!["0".to_string()], Some("4294967295".into())).err(),
        Some(StorageError::RoundNumberOverflow)
    );
    assert_eq!(s.bump_round("p1", "t1", &top, Some("4294967294".into())).err(), Some(StorageError::RoundExists));
    assert_eq!(s.bump_round("p1", "t1", &vec![], Some("4294967294".into())).unwrap().round_id, "4294967295");
}

#[test]
fn artifact_names_stay_in_their_round() {
    let s = storage();
    for bad in ["", ".", "..", "./", "../x", "/etc/passwd", "notes/../../x", "a/.."] {
        assert_eq!(
            s.get_artifact_path("p1", "t1", "0", ArtifactType::Inputs, bad).err(),
            Some(StorageError::InvalidFilename),
            "{:?}",
            bad
        );
    }
    let r0 = "/home/u/.adjent/state/projects/p1/tasks/t1/rounds/0";
    assert_eq!(
        s.get_artifact_path("p1", "t1", "0", ArtifactType::Logs, "..x").unwrap(),
        format!("{}/logs/..x", r0)
    );
    assert_eq!(
        s.get_artifact_path("p1", "t1", "0", ArtifactType::Inputs, "notes/plan.md").unwrap(),
        format!("{}/inputs/notes/plan.md", r0)
    );
    assert_eq!(
        s.get_artifact_path("p1", "t1", "0", ArtifactType::Outputs, "./a//b.txt").unwrap(),
        format!("{}/outputs/./a//b.txt", r0)
    );
    let nested = s.get_artifact_path("p1", "t1", "0", ArtifactType::Outputs, "notes/deep/plan.md").unwrap();
    let comps: Vec<String> = std::path::Path::new(&nested)
        .components()
        .map(|c| c.as_os_str().to_str().unwrap().to_string())
        .collect();
    let dir = s.artifact_dir("p1", "t1", "0", ArtifactType::Outputs);
    let dir_comps: Vec<String> = std::path::Path::new(&dir)
        .components()
        .map(|c| c.as_os_str().to_str().unwrap().to_string())
        .collect();
    assert_eq!(comps[..dir_comps.len()], dir_comps[..]);
    assert_eq!(comps[dir_comps.len()..], ["notes", "deep", "plan.md"]);
}

fn run_claim(names: &[&str], order: &[usize], contents: &[Action]) -> Option<(usize, Action)> {
    let names: Vec<String> = names.iter().map(|s| s.to_string()).collect();
    let order = order.to_vec();
    let (mut pos, mut step) = claim_step(&names, &order, 0, None);
    loop {
        match step {
            ClaimStep::Read { entry } => {
                (pos, step) = claim_step(&names, &order, pos, Some(contents[entry].clone()));
            }
            ClaimStep::Write { entry, action } => return Some((entry, action)),
            ClaimStep::NoneLeft => return None,
        }
    }
}

#[test]
fn claim_takes_first_pending_action_file_in_creation_order() {
    let contents = vec![
        action("a0", ActionStatus::Pending),
        action("a1", ActionStatus::Completed),
        action("a2", ActionStatus::Pending),
        action("a3", ActionStatus::Pending),
    ];
    // Entry 3 is first in creation order but is not an action file; entry 1
    // is not pending; entry 2 comes before entry 0.
    let names = ["a0.json", "a1.json", "a2.json", "notes.txt"];
    let (entry, claimed) = run_claim(&names, &[3, 1, 2, 0], &contents).unwrap();
    assert_eq!(entry, 2);
    assert_eq!(claimed.id, "a2");
    assert_eq!(claimed.status, ActionStatus::Assigned);
    let none = vec![action("b0", ActionStatus::Running), action("b1", ActionStatus::Assigned)];
    assert!(run_claim(&["b0.json", "b1.json"], &[0, 1], &none).is_none());
    assert!(run_claim(&[], &[], &[]).is_none());
}
