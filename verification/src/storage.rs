//! The local state: where projects, tasks, rounds, actions and the active
//! context live under Adjent's home, how a round is bumped, and how actions
//! are claimed and updated. The library decides; the caller performs the
//! file-system operations it hands back.

use vstd::prelude::*;
use crate::context::opt_text;
use crate::outside::Timestamp;
use crate::numbers::{decimal, law_parse_after_decimal, parse_u32, spec_decimal, spec_parse_u32};
use crate::paths::{join_path, spec_join, texts};

verus! {

/// The life-cycle of an action.
#[derive(Clone, Copy, Debug, PartialEq, Eq, Structural)]
pub enum ActionStatus {
    Pending,
    Assigned,
    Running,
    Completed,
    Failed,
}

/// A request to run a skill of an agent on a round.
#[derive(Clone, Debug)]
pub struct Action {
    pub id: String,
    pub project_id: String,
    pub task_id: String,
    pub round_id: String,
    pub action: String,
    pub status: ActionStatus,
    pub created_at: Timestamp,
}

/// The three artifact directories of a round.
#[derive(Clone, Copy, Debug, PartialEq, Eq, Structural)]
pub enum ArtifactType {
    Inputs,
    Outputs,
    Logs,
}

/// The directory name of an artifact type.
pub open spec fn spec_artifact_dir_name(t: ArtifactType) -> Seq<char> {
    match t {
        ArtifactType::Inputs => "inputs"@,
        ArtifactType::Outputs => "outputs"@,
        ArtifactType::Logs => "logs"@,
    }
}

/// The directory name of an artifact type.
pub fn artifact_dir_name(t: ArtifactType) -> (name: &'static str)
    ensures
        name@ == spec_artifact_dir_name(t),
{
    match t {
        ArtifactType::Inputs => "inputs",
        ArtifactType::Outputs => "outputs",
        ArtifactType::Logs => "logs",
    }
}

/// Why a storage request is refused.
#[derive(Clone, Copy, Debug, PartialEq, Eq, Structural)]
pub enum StorageError {
    /// A project id must be ASCII letters and digits, starting with a letter.
    InvalidProjectId,
    /// No action is stored under the requested id.
    ActionNotFound,
    /// The round a bump would create exists already.
    RoundExists,
    /// The round a bump starts from has the largest number a round id can
    /// hold (`u32::MAX`), so the next one cannot be counted.
    RoundNumberOverflow,
    /// An artifact file name must be relative and lead through plain names
    /// only (none of them `..`), so that it stays below its round's
    /// directory.
    InvalidFilename,
}

/// An operation on the file system, to be carried out in order.
#[derive(Clone, Debug)]
pub enum FsOp {
    /// Create the directory and its missing parents.
    CreateDir { path: String },
    /// Copy every file of directory `from` (if it exists) into directory
    /// `to`, replacing files of the same name.
    CopyFiles { from: String, to: String },
    /// Write `content` into the file `name` of directory `dir`.
    WriteFile { dir: String, name: String, content: String },
}

/// A file-system operation as texts.
pub enum FsOpView {
    CreateDir(Seq<char>),
    CopyFiles(Seq<char>, Seq<char>),
    WriteFile(Seq<char>, Seq<char>, Seq<char>),
}

impl View for FsOp {
    type V = FsOpView;

    open spec fn view(&self) -> FsOpView {
        match self {
            FsOp::CreateDir { path } => FsOpView::CreateDir(path@),
            FsOp::CopyFiles { from, to } => FsOpView::CopyFiles(from@, to@),
            FsOp::WriteFile { dir, name, content } => FsOpView::WriteFile(dir@, name@, content@),
        }
    }
}

/// The operations as texts.
pub open spec fn ops_view(ops: Seq<FsOp>) -> Seq<FsOpView> {
    ops.map_values(|o: FsOp| o@)
}

// ---------------------------------------------------------------------------
// Layout of the local state

pub open spec fn spec_projects_dir(root: Seq<char>) -> Seq<char> {
    spec_join(spec_join(root, "state"@), "projects"@)
}

pub open spec fn spec_project_dir(root: Seq<char>, project: Seq<char>) -> Seq<char> {
    spec_join(spec_projects_dir(root), project)
}

pub open spec fn spec_tasks_dir(root: Seq<char>, project: Seq<char>) -> Seq<char> {
    spec_join(spec_project_dir(root, project), "tasks"@)
}

pub open spec fn spec_actions_dir(root: Seq<char>, project: Seq<char>) -> Seq<char> {
    spec_join(spec_project_dir(root, project), "actions"@)
}

pub open spec fn spec_task_dir(root: Seq<char>, project: Seq<char>, task: Seq<char>) -> Seq<char> {
    spec_join(spec_tasks_dir(root, project), task)
}

pub open spec fn spec_rounds_dir(root: Seq<char>, project: Seq<char>, task: Seq<char>) -> Seq<
    char,
> {
    spec_join(spec_task_dir(root, project, task), "rounds"@)
}

pub open spec fn spec_round_dir(
    root: Seq<char>,
    project: Seq<char>,
    task: Seq<char>,
    round: Seq<char>,
) -> Seq<char> {
    spec_join(spec_rounds_dir(root, project, task), round)
}

pub open spec fn spec_round_sub_dir(
    root: Seq<char>,
    project: Seq<char>,
    task: Seq<char>,
    round: Seq<char>,
    sub: Seq<char>,
) -> Seq<char> {
    spec_join(spec_round_dir(root, project, task, round), sub)
}

pub open spec fn spec_action_file(root: Seq<char>, project: Seq<char>, id: Seq<char>) -> Seq<
    char,
> {
    spec_join(spec_actions_dir(root, project), id + ".json"@)
}

/// Adjent's local state, rooted at its home directory.
pub struct LocalStorage {
    root: String,
}

impl LocalStorage {
    /// The home directory the state is rooted at.
    pub closed spec fn root_path(&self) -> Seq<char> {
        self.root@
    }

    pub fn new(root: String) -> (s: Self)
        ensures
            s.root_path() == root@,
    {
        LocalStorage { root }
    }

    /// The home directory the state is rooted at.
    pub fn root(&self) -> (r: &String)
        ensures
            r@ == self.root_path(),
    {
        &self.root
    }

    /// `[root]/state/projects`
    pub fn projects_dir(&self) -> (d: String)
        ensures
            d@ == spec_projects_dir(self.root_path()),
    {
        let state = join_path(self.root.as_str(), "state");
        join_path(state.as_str(), "projects")
    }

    /// `[root]/state/projects/[project]`
    pub fn project_dir(&self, project_id: &str) -> (d: String)
        ensures
            d@ == spec_project_dir(self.root_path(), project_id@),
    {
        let p = self.projects_dir();
        join_path(p.as_str(), project_id)
    }

    /// `[root]/state/projects/[project]/tasks`
    pub fn tasks_dir(&self, project_id: &str) -> (d: String)
        ensures
            d@ == spec_tasks_dir(self.root_path(), project_id@),
    {
        let p = self.project_dir(project_id);
        join_path(p.as_str(), "tasks")
    }

    /// `[root]/state/projects/[project]/actions`
    pub fn actions_dir(&self, project_id: &str) -> (d: String)
        ensures
            d@ == spec_actions_dir(self.root_path(), project_id@),
    {
        let p = self.project_dir(project_id);
        join_path(p.as_str(), "actions")
    }

    /// `[root]/state/projects/[project]/tasks/[task]`
    pub fn task_dir(&self, project_id: &str, task_id: &str) -> (d: String)
        ensures
            d@ == spec_task_dir(self.root_path(), project_id@, task_id@),
    {
        let t = self.tasks_dir(project_id);
        join_path(t.as_str(), task_id)
    }

    /// `[root]/state/projects/[project]/tasks/[task]/rounds`
    pub fn rounds_dir(&self, project_id: &str, task_id: &str) -> (d: String)
        ensures
            d@ == spec_rounds_dir(self.root_path(), project_id@, task_id@),
    {
        let t = self.task_dir(project_id, task_id);
        join_path(t.as_str(), "rounds")
    }

    /// `[root]/state/projects/[project]/tasks/[task]/rounds/[round]`
    pub fn round_dir(&self, project_id: &str, task_id: &str, round_id: &str) -> (d: String)
        ensures
            d@ == spec_round_dir(self.root_path(), project_id@, task_id@, round_id@),
    {
        let r = self.rounds_dir(project_id, task_id);
        join_path(r.as_str(), round_id)
    }

    /// The directory of one kind of artifact of a round.
    pub fn artifact_dir(
        &self,
        project_id: &str,
        task_id: &str,
        round_id: &str,
        artifact_type: ArtifactType,
    ) -> (d: String)
        ensures
            d@ == spec_round_sub_dir(
                self.root_path(),
                project_id@,
                task_id@,
                round_id@,
                spec_artifact_dir_name(artifact_type),
            ),
    {
        let r = self.round_dir(project_id, task_id, round_id);
        join_path(r.as_str(), artifact_dir_name(artifact_type))
    }

    /// The file of an artifact of a round. The file name may lead through
    /// subdirectories (`notes/plan.md`); it is refused when it is absolute,
    /// names no file, or goes through `..`, so that the file lies below
    /// the round's directory for that kind of artifact.
    pub fn get_artifact_path(
        &self,
        project_id: &str,
        task_id: &str,
        round_id: &str,
        artifact_type: ArtifactType,
        filename: &str,
    ) -> (r: Result<String, StorageError>)
        ensures
            !crate::paths::is_name_below(filename@) ==> r == Err::<String, StorageError>(
                StorageError::InvalidFilename,
            ),
            crate::paths::is_name_below(filename@) ==> (r matches Ok(p) && p@ == spec_join(
                spec_round_sub_dir(
                    self.root_path(),
                    project_id@,
                    task_id@,
                    round_id@,
                    spec_artifact_dir_name(artifact_type),
                ),
                filename@,
            )),
    {
        if !crate::paths::is_name_below_text(filename) {
            return Err(StorageError::InvalidFilename);
        }
        let d = self.artifact_dir(project_id, task_id, round_id, artifact_type);
        Ok(join_path(d.as_str(), filename))
    }

    /// `[root]/state/projects/[project]/actions/[id].json`, where an action
    /// is stored.
    pub fn action_file(&self, project_id: &str, action_id: &str) -> (p: String)
        ensures
            p@ == spec_action_file(self.root_path(), project_id@, action_id@),
    {
        let d = self.actions_dir(project_id);
        let mut name = String::from_str(action_id);
        name.append(".json");
        join_path(d.as_str(), name.as_str())
    }

    /// `[root]/active.json`, where the active context is stored.
    pub fn active_context_file(&self) -> (p: String)
        ensures
            p@ == spec_join(self.root_path(), "active.json"@),
    {
        join_path(self.root.as_str(), "active.json")
    }
}


/// An artifact file accepted by `get_artifact_path` lies below its round's
/// directory for that kind of artifact: its components are that
/// directory's, then the names the file name leads through, each a plain
/// name.
pub proof fn law_artifact_path_stays_in_its_directory(
    root: Seq<char>,
    project: Seq<char>,
    task: Seq<char>,
    round: Seq<char>,
    artifact_type: ArtifactType,
    filename: Seq<char>,
)
    requires
        crate::paths::is_name_below(filename),
    ensures
        ({
            let dir = spec_round_sub_dir(
                root,
                project,
                task,
                round,
                spec_artifact_dir_name(artifact_type),
            );
            crate::paths::spec_components(spec_join(dir, filename))
                == crate::paths::spec_components(dir) + crate::paths::relative_names(filename)
        }),
{
    let dir = spec_round_sub_dir(root, project, task, round, spec_artifact_dir_name(artifact_type));
    reveal_strlit("inputs");
    reveal_strlit("outputs");
    reveal_strlit("logs");
    assert(dir.len() > 0);
    crate::paths::lemma_components_join(dir, filename);
}

// ---------------------------------------------------------------------------
// Identifiers

/// An ASCII letter.
pub open spec fn is_ascii_letter(c: char) -> bool {
    ('a' <= c && c <= 'z') || ('A' <= c && c <= 'Z')
}

/// An ASCII letter or digit.
pub open spec fn is_ascii_alnum(c: char) -> bool {
    is_ascii_letter(c) || ('0' <= c && c <= '9')
}

/// The format of project ids and task names: ASCII letters and digits only,
/// starting with a letter.
pub open spec fn spec_is_valid_identifier(s: Seq<char>) -> bool {
    &&& s.len() > 0
    &&& is_ascii_letter(s[0])
    &&& forall|i: int| 0 <= i < s.len() ==> is_ascii_alnum(#[trigger] s[i])
}

/// A valid project id or task name is a single path component, so the
/// directory made for it lies directly in its parent.
pub proof fn law_valid_identifier_is_plain_name(s: Seq<char>)
    requires
        spec_is_valid_identifier(s),
    ensures
        crate::paths::is_plain_name(s),
{
    assert(s != seq!['.']) by {
        if s == seq!['.'] {
            assert(s[0] == '.');
        }
    }
    assert(s != seq!['.', '.']) by {
        if s == seq!['.', '.'] {
            assert(s[0] == '.');
        }
    }
    assert forall|i: int| 0 <= i < s.len() implies s[i] != '/' by {
        assert(is_ascii_alnum(s[i]));
    }
}

/// Whether `s` is a valid project id or task name.
pub fn is_valid_identifier(s: &str) -> (ok: bool)
    ensures
        ok == spec_is_valid_identifier(s@),
{
    let n = s.unicode_len();
    if n == 0 {
        return false;
    }
    let first = s.get_char(0);
    if !(('a' <= first && first <= 'z') || ('A' <= first && first <= 'Z')) {
        return false;
    }
    for i in 0..n
        invariant
            n == s@.len(),
            forall|j: int| 0 <= j < i ==> is_ascii_alnum(#[trigger] s@[j]),
    {
        let c = s.get_char(i);
        if !(('a' <= c && c <= 'z') || ('A' <= c && c <= 'Z') || ('0' <= c && c <= '9')) {
            assert(!is_ascii_alnum(s@[i as int]));
            return false;
        }
    }
    true
}

// ---------------------------------------------------------------------------
// Listing directories

/// What the caller read of one directory entry: its name when it is valid
/// UTF-8, and whether it is a directory or a regular file.
#[derive(Clone, Debug)]
pub struct DirEntryInfo {
    pub name: Option<String>,
    pub is_dir: bool,
    pub is_file: bool,
}

/// The names of the entries that are directories with a readable name, in
/// the order read.
pub open spec fn spec_directory_names(entries: Seq<DirEntryInfo>) -> Seq<Seq<char>>
    decreases entries.len(),
{
    if entries.len() == 0 {
        seq![]
    } else {
        let last = entries.last();
        let before = spec_directory_names(entries.drop_last());
        if last.is_dir && last.name is Some {
            before.push(last.name->0@)
        } else {
            before
        }
    }
}

/// Whether an entry is a directory with a readable name.
pub open spec fn is_named_dir(e: DirEntryInfo) -> bool {
    e.is_dir && e.name is Some
}

/// Whether an entry is a regular file with a readable name.
pub open spec fn is_named_file(e: DirEntryInfo) -> bool {
    e.is_file && e.name is Some
}

/// The readable name of an entry.
pub open spec fn entry_name(e: DirEntryInfo) -> Seq<char> {
    e.name->0@
}

/// Listing directories keeps every directory whose name is readable,
/// whatever that name holds, and nothing else, in the order read: the
/// names listed are the entries that are named directories, each by its
/// name. In particular each such entry's name is listed.
pub proof fn law_directory_listing_keeps_every_directory(entries: Seq<DirEntryInfo>)
    ensures
        spec_directory_names(entries) == entries.filter(|e: DirEntryInfo| is_named_dir(e)).map_values(
            |e: DirEntryInfo| entry_name(e),
        ),
        forall|i: int|
            0 <= i < entries.len() && is_named_dir(#[trigger] entries[i]) ==> spec_directory_names(
                entries,
            ).contains(entry_name(entries[i])),
    decreases entries.len(),
{
    let pred = |e: DirEntryInfo| is_named_dir(e);
    let f = |e: DirEntryInfo| entry_name(e);
    reveal(Seq::filter);
    if entries.len() > 0 {
        let rest = entries.drop_last();
        law_directory_listing_keeps_every_directory(rest);
        if pred(entries.last()) {
            assert(entries.filter(pred) == rest.filter(pred).push(entries.last()));
            assert(entries.filter(pred).map_values(f) =~= rest.filter(pred).map_values(f).push(
                f(entries.last()),
            ));
        } else {
            assert(entries.filter(pred) == rest.filter(pred));
        }
        assert forall|i: int|
            0 <= i < entries.len() && is_named_dir(#[trigger] entries[i]) implies spec_directory_names(
                entries,
            ).contains(entry_name(entries[i])) by {
            if i < entries.len() - 1 {
                assert(rest[i] == entries[i]);
                let j = choose|j: int|
                    0 <= j < spec_directory_names(rest).len() && spec_directory_names(rest)[j]
                        == entry_name(rest[i]);
                if is_named_dir(entries.last()) {
                    assert(spec_directory_names(entries)[j] == entry_name(entries[i]));
                }
            } else {
                assert(entries[i] == entries.last());
                let n = spec_directory_names(rest).len() as int;
                assert(spec_directory_names(entries)[n] == entry_name(entries[i]));
            }
        }
    }
}

/// The projects, tasks or rounds found in a listing: the directories with
/// a readable name, in the order read.
pub fn directory_names(entries: &Vec<DirEntryInfo>) -> (names: Vec<String>)
    ensures
        texts(names@) == spec_directory_names(entries@),
{
    let mut names: Vec<String> = Vec::new();
    let n = entries.len();
    for i in 0..n
        invariant
            n == entries@.len(),
            texts(names@) == spec_directory_names(entries@.take(i as int)),
    {
        assert(entries@.take(i + 1).drop_last() =~= entries@.take(i as int));
        assert(entries@.take(i + 1).last() == entries@[i as int]);
        if entries[i].is_dir {
            match &entries[i].name {
                Some(name) => {
                    names.push(name.clone());
                    assert(texts(names@) =~= spec_directory_names(entries@.take(i as int)).push(
                        name@,
                    ));
                },
                None => {},
            }
        }
    }
    assert(entries@.take(n as int) =~= entries@);
    names
}

/// The names of the entries that are regular files with a readable name,
/// in the order read.
pub open spec fn spec_file_names(entries: Seq<DirEntryInfo>) -> Seq<Seq<char>>
    decreases entries.len(),
{
    if entries.len() == 0 {
        seq![]
    } else {
        let last = entries.last();
        let before = spec_file_names(entries.drop_last());
        if last.is_file && last.name is Some {
            before.push(last.name->0@)
        } else {
            before
        }
    }
}

/// Listing artifacts keeps every regular file whose name is readable,
/// whatever that name is, and nothing else, in the order read: the names
/// listed are the entries that are named files, each by its name. In
/// particular each such entry's name is listed.
pub proof fn law_file_listing_keeps_every_file(entries: Seq<DirEntryInfo>)
    ensures
        spec_file_names(entries) == entries.filter(|e: DirEntryInfo| is_named_file(e)).map_values(
            |e: DirEntryInfo| entry_name(e),
        ),
        forall|i: int|
            0 <= i < entries.len() && is_named_file(#[trigger] entries[i]) ==> spec_file_names(
                entries,
            ).contains(entry_name(entries[i])),
    decreases entries.len(),
{
    let pred = |e: DirEntryInfo| is_named_file(e);
    let f = |e: DirEntryInfo| entry_name(e);
    reveal(Seq::filter);
    if entries.len() > 0 {
        let rest = entries.drop_last();
        law_file_listing_keeps_every_file(rest);
        if pred(entries.last()) {
            assert(entries.filter(pred) == rest.filter(pred).push(entries.last()));
            assert(entries.filter(pred).map_values(f) =~= rest.filter(pred).map_values(f).push(
                f(entries.last()),
            ));
        } else {
            assert(entries.filter(pred) == rest.filter(pred));
        }
        assert forall|i: int|
            0 <= i < entries.len() && is_named_file(#[trigger] entries[i]) implies spec_file_names(
                entries,
            ).contains(entry_name(entries[i])) by {
            if i < entries.len() - 1 {
                assert(rest[i] == entries[i]);
                let j = choose|j: int|
                    0 <= j < spec_file_names(rest).len() && spec_file_names(rest)[j] == entry_name(
                        rest[i],
                    );
                if is_named_file(entries.last()) {
                    assert(spec_file_names(entries)[j] == entry_name(entries[i]));
                }
            } else {
                assert(entries[i] == entries.last());
                let n = spec_file_names(rest).len() as int;
                assert(spec_file_names(entries)[n] == entry_name(entries[i]));
            }
        }
    }
}

/// The artifacts found in a listing: the regular files with a readable
/// name, in the order read.
pub fn file_names(entries: &Vec<DirEntryInfo>) -> (names: Vec<String>)
    ensures
        texts(names@) == spec_file_names(entries@),
{
    let mut names: Vec<String> = Vec::new();
    let n = entries.len();
    for i in 0..n
        invariant
            n == entries@.len(),
            texts(names@) == spec_file_names(entries@.take(i as int)),
    {
        assert(entries@.take(i + 1).drop_last() =~= entries@.take(i as int));
        assert(entries@.take(i + 1).last() == entries@[i as int]);
        if entries[i].is_file {
            match &entries[i].name {
                Some(name) => {
                    names.push(name.clone());
                    assert(texts(names@) =~= spec_file_names(entries@.take(i as int)).push(
                        name@,
                    ));
                },
                None => {},
            }
        }
    }
    assert(entries@.take(n as int) =~= entries@);
    names
}

// ---------------------------------------------------------------------------
// Rounds

/// The largest round number among the names that parse as one.
pub open spec fn spec_max_round(rounds: Seq<Seq<char>>) -> Option<u32>
    decreases rounds.len(),
{
    if rounds.len() == 0 {
        None
    } else {
        let m = spec_max_round(rounds.drop_last());
        match spec_parse_u32(rounds.last()) {
            None => m,
            Some(v) => match m {
                None => Some(v),
                Some(w) => if v > w {
                    Some(v)
                } else {
                    Some(w)
                },
            },
        }
    }
}

/// The round a bump starts from: the one asked for, else the one with the
/// largest number (printed back in decimal), else none.
pub open spec fn spec_bump_source(rounds: Seq<Seq<char>>, from: Option<Seq<char>>) -> Option<
    Seq<char>,
> {
    match from {
        Some(f) => Some(f),
        None => match spec_max_round(rounds) {
            Some(m) => Some(spec_decimal(m as nat)),
            None => None,
        },
    }
}

/// The number of the new round: one more than the source's number, or 0
/// when there is no source or its name is not a number.
pub open spec fn spec_next_round(source: Option<Seq<char>>) -> nat {
    match source {
        Some(s) => match spec_parse_u32(s) {
            Some(n) => (n + 1) as nat,
            None => 0,
        },
        None => 0,
    }
}

/// The new round's number fits in a `u32` (the count does not overflow).
pub open spec fn spec_bump_fits(rounds: Seq<Seq<char>>, from: Option<Seq<char>>) -> bool {
    spec_next_round(spec_bump_source(rounds, from)) <= u32::MAX
}

/// Creating the `inputs`, `outputs` and `logs` directories of a round.
pub open spec fn spec_round_dir_ops(
    root: Seq<char>,
    project: Seq<char>,
    task: Seq<char>,
    round: Seq<char>,
) -> Seq<FsOpView> {
    seq![
        FsOpView::CreateDir(spec_round_sub_dir(root, project, task, round, "inputs"@)),
        FsOpView::CreateDir(spec_round_sub_dir(root, project, task, round, "outputs"@)),
        FsOpView::CreateDir(spec_round_sub_dir(root, project, task, round, "logs"@)),
    ]
}

/// Bumping into round `next` from `source`: create the new round's
/// directories; copy the source's inputs, then its outputs, into the new
/// inputs; then write an empty `instructions.md` there.
pub open spec fn spec_bump_ops(
    root: Seq<char>,
    project: Seq<char>,
    task: Seq<char>,
    source: Option<Seq<char>>,
    next: Seq<char>,
) -> Seq<FsOpView> {
    let target = spec_round_sub_dir(root, project, task, next, "inputs"@);
    let copies = match source {
        Some(s) => seq![
            FsOpView::CopyFiles(spec_round_sub_dir(root, project, task, s, "inputs"@), target),
            FsOpView::CopyFiles(spec_round_sub_dir(root, project, task, s, "outputs"@), target),
        ],
        None => seq![],
    };
    spec_round_dir_ops(root, project, task, next) + copies + seq![
        FsOpView::WriteFile(target, "instructions.md"@, Seq::empty()),
    ]
}

/// The outcome of a bump: the new round's id and what to do on disk.
pub struct RoundBump {
    pub round_id: String,
    pub ops: Vec<FsOp>,
}

fn max_round(rounds: &Vec<String>) -> (m: Option<u32>)
    ensures
        m == spec_max_round(texts(rounds@)),
{
    let mut m: Option<u32> = None;
    let n = rounds.len();
    for i in 0..n
        invariant
            n == rounds@.len(),
            m == spec_max_round(texts(rounds@).take(i as int)),
    {
        assert(texts(rounds@).take(i + 1).drop_last() =~= texts(rounds@).take(i as int));
        assert(texts(rounds@).take(i + 1).last() == rounds@[i as int]@);
        match parse_u32(rounds[i].as_str()) {
            None => {},
            Some(v) => {
                m = match m {
                    None => Some(v),
                    Some(w) => if v > w {
                        Some(v)
                    } else {
                        Some(w)
                    },
                };
            },
        }
    }
    assert(texts(rounds@).take(n as int) =~= texts(rounds@));
    m
}

impl LocalStorage {
    /// Creating the `inputs`, `outputs` and `logs` directories of a round.
    pub fn create_round_dir(&self, project_id: &str, task_id: &str, round_id: &str) -> (ops: Vec<
        FsOp,
    >)
        ensures
            ops_view(ops@) == spec_round_dir_ops(
                self.root_path(),
                project_id@,
                task_id@,
                round_id@,
            ),
    {
        let inputs = self.artifact_dir(project_id, task_id, round_id, ArtifactType::Inputs);
        let outputs = self.artifact_dir(project_id, task_id, round_id, ArtifactType::Outputs);
        let logs = self.artifact_dir(project_id, task_id, round_id, ArtifactType::Logs);
        let mut ops: Vec<FsOp> = Vec::new();
        ops.push(FsOp::CreateDir { path: inputs });
        ops.push(FsOp::CreateDir { path: outputs });
        ops.push(FsOp::CreateDir { path: logs });
        assert(ops_view(ops@) =~= spec_round_dir_ops(
            self.root_path(),
            project_id@,
            task_id@,
            round_id@,
        ));
        ops
    }

    /// Bumps a task to a new round, given the names of its existing rounds
    /// and the round to start from (`None`: the one with the largest
    /// number). The new round's id is one more than the source's number, or
    /// `0` when there is no source or its name is not a number. A bump
    /// creates a new round: it is refused when that round exists already,
    /// and when the source's number is the largest a round id can hold.
    /// The caller carries out the returned operations in order.
    pub fn bump_round(
        &self,
        project_id: &str,
        task_id: &str,
        rounds: &Vec<String>,
        from_round_id: Option<String>,
    ) -> (r: Result<RoundBump, StorageError>)
        ensures
            !spec_bump_fits(texts(rounds@), opt_text(from_round_id)) ==> r == Err::<
                RoundBump,
                StorageError,
            >(StorageError::RoundNumberOverflow),
            spec_bump_fits(texts(rounds@), opt_text(from_round_id)) ==> ({
                let source = spec_bump_source(texts(rounds@), opt_text(from_round_id));
                let next = spec_decimal(spec_next_round(source));
                &&& texts(rounds@).contains(next) ==> r == Err::<RoundBump, StorageError>(
                    StorageError::RoundExists,
                )
                &&& !texts(rounds@).contains(next) ==> (r matches Ok(bump) && bump.round_id@
                    == next && ops_view(bump.ops@) == spec_bump_ops(
                    self.root_path(),
                    project_id@,
                    task_id@,
                    source,
                    next,
                ))
            }),
    {
        let ghost rs = texts(rounds@);
        let source: Option<String> = match from_round_id {
            Some(f) => Some(f),
            None => match max_round(rounds) {
                Some(m) => Some(decimal(m)),
                None => None,
            },
        };
        assert(opt_text(source) == spec_bump_source(rs, opt_text(from_round_id)));
        let next: u32 = match &source {
            Some(s) => match parse_u32(s.as_str()) {
                Some(n) => {
                    if n == u32::MAX {
                        return Err(StorageError::RoundNumberOverflow);
                    }
                    n + 1
                },
                None => 0,
            },
            None => 0,
        };
        assert(next == spec_next_round(spec_bump_source(rs, opt_text(from_round_id))));
        assert(spec_bump_fits(rs, opt_text(from_round_id)));
        let next_id = decimal(next);
        let ghost expected = spec_decimal(spec_next_round(spec_bump_source(rs, opt_text(from_round_id))));
        assert(next_id@ == expected);
        let n = rounds.len();
        for i in 0..n
            invariant
                n == rounds@.len(),
                rs == texts(rounds@),
                spec_bump_fits(rs, opt_text(from_round_id)),
                next_id@ == expected,
                expected == spec_decimal(
                    spec_next_round(spec_bump_source(rs, opt_text(from_round_id))),
                ),
                forall|j: int| 0 <= j < i ==> rs[j] != next_id@,
        {
            if crate::text::same_text(rounds[i].as_str(), next_id.as_str()) {
                assert(rs[i as int] == next_id@);
                assert(rs.contains(next_id@));
                return Err(StorageError::RoundExists);
            }
        }
        assert(!rs.contains(next_id@));
        let mut ops = self.create_round_dir(project_id, task_id, next_id.as_str());
        let target = self.artifact_dir(project_id, task_id, next_id.as_str(), ArtifactType::Inputs);
        let ghost root = self.root_path();
        match &source {
            Some(s) => {
                let from_inputs = self.artifact_dir(
                    project_id,
                    task_id,
                    s.as_str(),
                    ArtifactType::Inputs,
                );
                let from_outputs = self.artifact_dir(
                    project_id,
                    task_id,
                    s.as_str(),
                    ArtifactType::Outputs,
                );
                ops.push(FsOp::CopyFiles { from: from_inputs, to: target.clone() });
                ops.push(FsOp::CopyFiles { from: from_outputs, to: target.clone() });
            },
            None => {},
        }
        let instructions = String::from_str("instructions.md");
        ops.push(FsOp::WriteFile { dir: target, name: instructions, content: String::new() });
        assert(ops_view(ops@) =~= spec_bump_ops(
            root,
            project_id@,
            task_id@,
            opt_text(source),
            next_id@,
        ));
        Ok(RoundBump { round_id: next_id, ops })
    }
}

// ---------------------------------------------------------------------------
// What the operations do to the files

/// The files on disk, as a map from a directory's path to the contents of
/// the files in it (by name).
pub type FsModel = Map<Seq<char>, Map<Seq<char>, Seq<char>>>;

/// The files of a directory; none when it does not exist.
pub open spec fn files_in(fs: FsModel, dir: Seq<char>) -> Map<Seq<char>, Seq<char>> {
    if fs.dom().contains(dir) {
        fs[dir]
    } else {
        Map::empty()
    }
}

/// One operation carried out: a created directory starts empty and an
/// existing one is left as it is; copied files replace those of the same
/// name; a copy from a missing directory does nothing.
pub open spec fn apply_op(fs: FsModel, op: FsOpView) -> FsModel {
    match op {
        FsOpView::CreateDir(d) => if fs.dom().contains(d) {
            fs
        } else {
            fs.insert(d, Map::empty())
        },
        FsOpView::CopyFiles(from, to) => if fs.dom().contains(from) && fs.dom().contains(to) {
            fs.insert(to, fs[to].union_prefer_right(fs[from]))
        } else {
            fs
        },
        FsOpView::WriteFile(d, name, content) => if fs.dom().contains(d) {
            fs.insert(d, fs[d].insert(name, content))
        } else {
            fs
        },
    }
}

/// The operations carried out in order.
pub open spec fn apply_ops(fs: FsModel, ops: Seq<FsOpView>) -> FsModel
    decreases ops.len(),
{
    if ops.len() == 0 {
        fs
    } else {
        apply_ops(apply_op(fs, ops[0]), ops.drop_first())
    }
}

proof fn lemma_create_keeps_files(fs: FsModel, d: Seq<char>, x: Seq<char>)
    ensures
        files_in(apply_op(fs, FsOpView::CreateDir(d)), x) == files_in(fs, x),
        apply_op(fs, FsOpView::CreateDir(d)).dom().contains(d),
        forall|y: Seq<char>| fs.dom().contains(y) ==> apply_op(fs, FsOpView::CreateDir(d)).dom().contains(y),
{
}

/// The files expected in the new round's inputs after a bump.
pub open spec fn spec_bumped_inputs(
    fs: FsModel,
    root: Seq<char>,
    project: Seq<char>,
    task: Seq<char>,
    source: Option<Seq<char>>,
    next: Seq<char>,
) -> Map<Seq<char>, Seq<char>> {
    let target = spec_round_sub_dir(root, project, task, next, "inputs"@);
    let carried = match source {
        Some(s) => files_in(fs, target).union_prefer_right(
            files_in(fs, spec_round_sub_dir(root, project, task, s, "inputs"@)),
        ).union_prefer_right(files_in(fs, spec_round_sub_dir(root, project, task, s, "outputs"@))),
        None => files_in(fs, target),
    };
    carried.insert("instructions.md"@, Seq::empty())
}

/// The new round's inputs hold the inputs of the round it was bumped from,
/// then its outputs over them (an output replaces an input of the same
/// name), and an empty `instructions.md` over both; with nothing to bump
/// from, they hold what was there and an empty `instructions.md`. (The
/// source round's directories must not be the new round's inputs
/// directory: a directory is not copied onto itself.)
pub proof fn law_bump_carries_artifacts(
    fs: FsModel,
    root: Seq<char>,
    project: Seq<char>,
    task: Seq<char>,
    source: Option<Seq<char>>,
    next: Seq<char>,
)
    requires
        source matches Some(s) ==> spec_round_sub_dir(root, project, task, s, "inputs"@)
            != spec_round_sub_dir(root, project, task, next, "inputs"@),
        source matches Some(s) ==> spec_round_sub_dir(root, project, task, s, "outputs"@)
            != spec_round_sub_dir(root, project, task, next, "inputs"@),
    ensures
        files_in(
            apply_ops(fs, spec_bump_ops(root, project, task, source, next)),
            spec_round_sub_dir(root, project, task, next, "inputs"@),
        ) == spec_bumped_inputs(fs, root, project, task, source, next),
{
    let target = spec_round_sub_dir(root, project, task, next, "inputs"@);
    let ops = spec_bump_ops(root, project, task, source, next);
    let c = spec_round_dir_ops(root, project, task, next);
    let fs1 = apply_op(fs, c[0]);
    let fs2 = apply_op(fs1, c[1]);
    let fs3 = apply_op(fs2, c[2]);
    assert forall|x: Seq<char>| files_in(fs3, x) == files_in(fs, x) by {
        lemma_create_keeps_files(fs, spec_round_sub_dir(root, project, task, next, "inputs"@), x);
        lemma_create_keeps_files(fs1, spec_round_sub_dir(root, project, task, next, "outputs"@), x);
        lemma_create_keeps_files(fs2, spec_round_sub_dir(root, project, task, next, "logs"@), x);
    }
    assert(fs3.dom().contains(target));
    lemma_apply_three(fs, c[0], c[1], c[2]);
    assert(c =~= seq![c[0], c[1], c[2]]);
    let write = FsOpView::WriteFile(target, "instructions.md"@, Seq::empty());
    match source {
        Some(s) => {
            let from_in = spec_round_sub_dir(root, project, task, s, "inputs"@);
            let from_out = spec_round_sub_dir(root, project, task, s, "outputs"@);
            let copy_in = FsOpView::CopyFiles(from_in, target);
            let copy_out = FsOpView::CopyFiles(from_out, target);
            let fs4 = apply_op(fs3, copy_in);
            let fs5 = apply_op(fs4, copy_out);
            assert(files_in(fs4, target) == files_in(fs, target).union_prefer_right(
                files_in(fs, from_in),
            )) by {
                if !fs3.dom().contains(from_in) {
                    assert(files_in(fs, target).union_prefer_right(Map::empty()) =~= files_in(
                        fs,
                        target,
                    ));
                }
            }
            assert(files_in(fs4, from_out) == files_in(fs, from_out));
            assert(fs4.dom().contains(target));
            assert(files_in(fs5, target) == files_in(fs4, target).union_prefer_right(
                files_in(fs, from_out),
            )) by {
                if !fs4.dom().contains(from_out) {
                    assert(files_in(fs4, target).union_prefer_right(Map::empty()) =~= files_in(
                        fs4,
                        target,
                    ));
                }
            }
            assert(fs5.dom().contains(target));
            let tail = seq![copy_in, copy_out, write];
            assert(ops =~= c + tail);
            lemma_apply_concat(fs, c, tail);
            lemma_apply_three(fs3, copy_in, copy_out, write);
            assert(apply_ops(fs, c) == fs3);
            assert(apply_ops(fs, ops) == apply_op(fs5, write));
            assert(files_in(apply_op(fs5, write), target) =~= spec_bumped_inputs(
                fs,
                root,
                project,
                task,
                source,
                next,
            ));
        },
        None => {
            let tail = seq![write];
            assert(ops =~= c + tail);
            lemma_apply_concat(fs, c, tail);
            assert(tail.drop_first() =~= seq![]);
            assert(apply_ops(fs, c) == fs3);
            assert(apply_ops(apply_op(fs3, write), seq![]) == apply_op(fs3, write));
            assert(apply_ops(fs3, tail) == apply_op(fs3, write));
            assert(apply_ops(fs, ops) == apply_op(fs3, write));
            assert(files_in(apply_op(fs3, write), target) =~= files_in(fs, target).insert(
                "instructions.md"@,
                Seq::empty(),
            ));
        },
    }
}

proof fn lemma_apply_concat(fs: FsModel, a: Seq<FsOpView>, b: Seq<FsOpView>)
    ensures
        apply_ops(fs, a + b) == apply_ops(apply_ops(fs, a), b),
    decreases a.len(),
{
    if a.len() > 0 {
        assert((a + b).drop_first() =~= a.drop_first() + b);
        assert((a + b)[0] == a[0]);
        lemma_apply_concat(apply_op(fs, a[0]), a.drop_first(), b);
    } else {
        assert(a + b =~= b);
    }
}

proof fn lemma_apply_three(fs: FsModel, x: FsOpView, y: FsOpView, z: FsOpView)
    ensures
        apply_ops(fs, seq![x, y, z]) == apply_op(apply_op(apply_op(fs, x), y), z),
{
    let s = seq![x, y, z];
    let fx = apply_op(fs, x);
    let fy = apply_op(fx, y);
    let fz = apply_op(fy, z);
    assert(s.drop_first() =~= seq![y, z]);
    assert(seq![y, z].drop_first() =~= seq![z]);
    assert(seq![z].drop_first() =~= seq![]);
    assert(apply_ops(fz, seq![]) == fz);
    assert(apply_ops(fy, seq![z]) == fz);
    assert(apply_ops(fx, seq![y, z]) == fz);
    assert(apply_ops(fs, s) == fz);
}

/// With no round to start from named, the new round is not one of the
/// existing rounds: its number is larger than that of every round whose
/// name is a number, and only such a name could be its decimal text.
pub proof fn law_bump_new_round_is_fresh(rounds: Seq<Seq<char>>)
    requires
        spec_bump_fits(rounds, None),
    ensures
        !rounds.contains(spec_decimal(spec_next_round(spec_bump_source(rounds, None)))),
{
    let next = spec_next_round(spec_bump_source(rounds, None));
    lemma_max_round_bounds(rounds);
    law_parse_after_decimal(next as u32);
    if rounds.contains(spec_decimal(next)) {
        let i = choose|i: int| 0 <= i < rounds.len() && rounds[i] == spec_decimal(next);
        assert(spec_parse_u32(rounds[i]) == Some(next as u32));
        match spec_max_round(rounds) {
            Some(m) => {
                law_parse_after_decimal(m);
            },
            None => {},
        }
    }
}

/// Bumping from a round whose id is the number `n` creates round `n + 1`,
/// written in decimal.
pub proof fn law_bump_increments_round(rounds: Seq<Seq<char>>, from: Option<Seq<char>>, n: u32)
    requires
        spec_bump_source(rounds, from) matches Some(s) && spec_parse_u32(s) == Some(n),
        n < u32::MAX,
    ensures
        spec_bump_fits(rounds, from),
        spec_parse_u32(spec_decimal(spec_next_round(spec_bump_source(rounds, from)))) == Some(
            (n + 1) as u32,
        ),
{
    law_parse_after_decimal((n + 1) as u32);
}

/// A task's first round is round `0`.
pub proof fn law_first_round_is_zero()
    ensures
        spec_next_round(spec_bump_source(seq![], None)) == 0,
        spec_decimal(0) == seq!['0'],
{
}

proof fn lemma_max_round_bounds(rounds: Seq<Seq<char>>)
    ensures
        forall|i: int|
            0 <= i < rounds.len() && #[trigger] spec_parse_u32(rounds[i]) is Some ==> (
            spec_max_round(rounds) is Some && spec_parse_u32(rounds[i])->0 <= spec_max_round(
                rounds,
            )->0),
    decreases rounds.len(),
{
    if rounds.len() > 0 {
        lemma_max_round_bounds(rounds.drop_last());
        assert forall|i: int|
            0 <= i < rounds.len() && #[trigger] spec_parse_u32(rounds[i]) is Some implies (
            spec_max_round(rounds) is Some && spec_parse_u32(rounds[i])->0 <= spec_max_round(
                rounds,
            )->0) by {
            if i < rounds.len() - 1 {
                assert(rounds[i] == rounds.drop_last()[i]);
            }
        }
    }
}


// ---------------------------------------------------------------------------
// Projects and tasks

impl LocalStorage {
    /// Creating project `id`: its directory, once the id has the documented
    /// format (ASCII letters and digits, starting with a letter).
    pub fn create_project(&self, id: &str) -> (r: Result<Vec<FsOp>, StorageError>)
        ensures
            spec_is_valid_identifier(id@) ==> (r matches Ok(ops) && ops_view(ops@) == seq![
                FsOpView::CreateDir(spec_project_dir(self.root_path(), id@)),
            ]),
            !spec_is_valid_identifier(id@) ==> r == Err::<Vec<FsOp>, StorageError>(
                StorageError::InvalidProjectId,
            ),
    {
        if !is_valid_identifier(id) {
            return Err(StorageError::InvalidProjectId);
        }
        let mut ops: Vec<FsOp> = Vec::new();
        ops.push(FsOp::CreateDir { path: self.project_dir(id) });
        assert(ops_view(ops@) =~= seq![FsOpView::CreateDir(spec_project_dir(self.root_path(), id@))]);
        Ok(ops)
    }

    /// Creating task `task_id` of a project: its directory. Its first round
    /// comes from `bump_round` on the rounds then found in it.
    pub fn create_task(&self, project_id: &str, task_id: &str) -> (ops: Vec<FsOp>)
        ensures
            ops_view(ops@) == seq![
                FsOpView::CreateDir(spec_task_dir(self.root_path(), project_id@, task_id@)),
            ],
    {
        let mut ops: Vec<FsOp> = Vec::new();
        ops.push(FsOp::CreateDir { path: self.task_dir(project_id, task_id) });
        assert(ops_view(ops@) =~= seq![
            FsOpView::CreateDir(spec_task_dir(self.root_path(), project_id@, task_id@)),
        ]);
        ops
    }
}

// ---------------------------------------------------------------------------
// Actions

/// The same action with another status.
pub open spec fn with_status(a: Action, status: ActionStatus) -> Action {
    Action { status, ..a }
}

/// Claiming an action: a pending action becomes assigned; any other is
/// not claimed.
pub open spec fn spec_claim(action: Action) -> Option<Action> {
    if action.status == ActionStatus::Pending {
        Some(with_status(action, ActionStatus::Assigned))
    } else {
        None
    }
}

/// An action is claimed at most once: once claimed it is assigned, and an
/// assigned action is not claimed again.
pub proof fn law_claimed_only_once(action: Action)
    ensures
        spec_claim(action) matches Some(claimed) ==> spec_claim(claimed) is None,
{
}

/// Claiming an action for a manager: a pending action becomes assigned;
/// any other is left alone (`None`).
pub fn claim_if_pending(action: Action) -> (claimed: Option<Action>)
    ensures
        claimed == spec_claim(action),
{
    match action.status {
        ActionStatus::Pending => Some(Action { status: ActionStatus::Assigned, ..action }),
        _ => None,
    }
}

/// Whether a file name has the `json` extension, as
/// `Path::extension() == Some("json")` decides it: the name ends in
/// `.json` and that dot is not its first character.
pub open spec fn spec_is_action_file_name(name: Seq<char>) -> bool {
    name.len() > 5 && name.skip(name.len() - 5) == ".json"@
}

/// Every name made of a non-empty stem, whatever its characters, and
/// `.json` is an action file name, and only such names are: in particular
/// the `[uuid].json` files that actions are saved to.
pub proof fn law_json_files_are_action_files(stem: Seq<char>, name: Seq<char>)
    ensures
        stem.len() > 0 ==> spec_is_action_file_name(stem + ".json"@),
        spec_is_action_file_name(name) ==> name.len() > 5 && name == name.take(name.len() - 5)
            + ".json"@,
{
    reveal_strlit(".json");
    if stem.len() > 0 {
        let n = stem + ".json"@;
        assert(n.skip(n.len() - 5) =~= ".json"@);
    }
    if spec_is_action_file_name(name) {
        assert(name =~= name.take(name.len() - 5) + name.skip(name.len() - 5));
    }
}

/// Whether a directory entry holds an action (its name has the `json`
/// extension).
pub fn is_action_file_name(name: &str) -> (b: bool)
    ensures
        b == spec_is_action_file_name(name@),
{
    let n = name.unicode_len();
    if n <= 5 {
        return false;
    }
    let suffix = name.substring_char(n - 5, n);
    let ext = ".json";
    let same = crate::text::same_text(suffix, ext);
    same
}

/// Reading an action back after its status was updated gives the updated
/// action: the update is written to the file that a read of the action's
/// id looks at. (`store` maps each action file to what it holds; the
/// action read must carry the id it was read by.)
pub proof fn law_status_update_is_read_back(
    store: Map<Seq<char>, Action>,
    root: Seq<char>,
    project: Seq<char>,
    action_id: Seq<char>,
    status: ActionStatus,
)
    requires
        store.contains_key(spec_action_file(root, project, action_id)),
        store[spec_action_file(root, project, action_id)].id@ == action_id,
    ensures
        ({
            let a = store[spec_action_file(root, project, action_id)];
            let after = store.insert(spec_action_file(root, project, a.id@), with_status(a, status));
            after[spec_action_file(root, project, action_id)] == with_status(a, status)
        }),
{
}

impl LocalStorage {
    /// Where an action is stored: `[id].json` in its project's actions.
    pub fn save_action(&self, project_id: &str, action: &Action) -> (p: String)
        ensures
            p@ == spec_action_file(self.root_path(), project_id@, action.id@),
    {
        self.action_file(project_id, action.id.as_str())
    }

    /// Updating the status of a stored action, given what was read at
    /// `action_file(project_id, action_id)`: an error when nothing is
    /// stored there; otherwise the action with the new status, and the file
    /// to write it to (named after the action's own id).
    pub fn update_action_status(
        &self,
        project_id: &str,
        stored: Option<Action>,
        status: ActionStatus,
    ) -> (r: Result<(String, Action), StorageError>)
        ensures
            stored is None ==> r == Err::<(String, Action), StorageError>(
                StorageError::ActionNotFound,
            ),
            stored matches Some(a) ==> (r matches Ok((path, updated)) && updated == with_status(
                a,
                status,
            ) && path@ == spec_action_file(self.root_path(), project_id@, a.id@)),
    {
        match stored {
            None => Err(StorageError::ActionNotFound),
            Some(a) => {
                let updated = Action { status, ..a };
                let path = self.save_action(project_id, &updated);
                Ok((path, updated))
            },
        }
    }
}


// ---------------------------------------------------------------------------
// Order in which stored actions are examined

/// Creation times compare with a missing time first.
pub open spec fn time_lt(a: Option<i128>, b: Option<i128>) -> bool {
    match (a, b) {
        (None, Some(_)) => true,
        (Some(x), Some(y)) => x < y,
        _ => false,
    }
}

/// Entry `i` comes before entry `j`: an earlier creation time, or the same
/// time and an earlier position in the listing (the sort is stable).
pub open spec fn entry_before(keys: Seq<Option<i128>>, i: int, j: int) -> bool {
    time_lt(keys[i], keys[j]) || (keys[i] == keys[j] && i < j)
}

/// `order` lists every position of `keys` once, by creation time, entries
/// with the same time in their listed order.
pub open spec fn is_creation_order(keys: Seq<Option<i128>>, order: Seq<usize>) -> bool {
    &&& order.len() == keys.len()
    &&& forall|a: int| 0 <= a < order.len() ==> #[trigger] order[a] < keys.len()
    &&& forall|a: int, b: int|
        0 <= a < b < order.len() ==> entry_before(keys, #[trigger] order[a] as int, #[trigger] order[b] as int)
}

/// The creation order examines each listed entry exactly once.
pub proof fn law_creation_order_visits_each_once(keys: Seq<Option<i128>>, order: Seq<usize>)
    requires
        is_creation_order(keys, order),
        keys.len() <= usize::MAX,
    ensures
        forall|a: int, b: int| 0 <= a < b < order.len() ==> order[a] != order[b],
        forall|i: usize| i < keys.len() ==> #[trigger] order.contains(i),
{
    assert forall|a: int, b: int| 0 <= a < b < order.len() implies order[a] != order[b] by {
        assert(entry_before(keys, order[a] as int, order[b] as int));
    }
    assert forall|i: usize| i < keys.len() implies #[trigger] order.contains(i) by {
        lemma_injective_covers(order, keys.len() as int, i);
    }
}

proof fn lemma_injective_covers(order: Seq<usize>, n: int, i: usize)
    requires
        order.len() == n,
        i < n,
        n <= usize::MAX,
        forall|a: int| 0 <= a < order.len() ==> #[trigger] order[a] < n,
        forall|a: int, b: int| 0 <= a < b < order.len() ==> order[a] != order[b],
    ensures
        order.contains(i),
{
    if !order.contains(i) {
        let s = order.to_set();
        let r = Set::new(|x: usize| 0 <= x < n && x != i);
        assert(s.subset_of(r));
        assert(r.finite() && r.len() == n - 1) by {
            let full = Set::new(|x: usize| 0 <= x < n);
            lemma_usize_range(n);
            assert(r =~= full.remove(i));
        }
        order.unique_seq_to_set();
        vstd::set_lib::lemma_len_subset(s, r);
    }
}

proof fn lemma_usize_range(n: int)
    requires
        0 <= n <= usize::MAX,
    ensures
        Set::new(|x: usize| 0 <= x < n).finite(),
        Set::new(|x: usize| 0 <= x < n).len() == n,
    decreases n,
{
    let full = Set::new(|x: usize| 0 <= x < n);
    if n == 0 {
        assert(full =~= Set::empty());
    } else {
        lemma_usize_range(n - 1);
        let smaller = Set::new(|x: usize| 0 <= x < n - 1);
        assert(!smaller.contains((n - 1) as usize));
        assert(full =~= smaller.insert((n - 1) as usize));
    }
}

proof fn lemma_entry_before_transitive(keys: Seq<Option<i128>>, i: int, j: int, k: int)
    requires
        entry_before(keys, i, j),
        entry_before(keys, j, k),
    ensures
        entry_before(keys, i, k),
{
}

fn time_less(a: Option<i128>, b: Option<i128>) -> (lt: bool)
    ensures
        lt == time_lt(a, b),
{
    match (a, b) {
        (None, Some(_)) => true,
        (Some(x), Some(y)) => x < y,
        _ => false,
    }
}

/// The order in which the stored actions are examined, given the creation
/// time of each listed entry (`None` when it could not be read): a stable
/// sort by creation time, missing times first.
pub fn creation_order(keys: &Vec<Option<i128>>) -> (order: Vec<usize>)
    ensures
        is_creation_order(keys@, order@),
{
    let n = keys.len();
    let mut order: Vec<usize> = Vec::new();
    for i in 0..n
        invariant
            n == keys@.len(),
            order@.len() == i,
            forall|a: int| 0 <= a < order@.len() ==> #[trigger] order@[a] < i,
            forall|a: int, b: int|
                0 <= a < b < order@.len() ==> entry_before(
                    keys@,
                    #[trigger] order@[a] as int,
                    #[trigger] order@[b] as int,
                ),
    {
        let ki = keys[i];
        let mut pos: usize = 0;
        while pos < order.len() && !time_less(ki, keys[order[pos]])
            invariant
                n == keys@.len(),
                i < n,
                ki == keys@[i as int],
                order@.len() == i,
                pos <= order@.len(),
                forall|a: int| 0 <= a < order@.len() ==> #[trigger] order@[a] < i,
                forall|a: int| 0 <= a < pos ==> !time_lt(ki, keys@[#[trigger] order@[a] as int]),
            decreases order@.len() - pos,
        {
            pos = pos + 1;
        }
        let ghost prev = order@;
        proof {
            assert forall|a: int| 0 <= a < pos implies entry_before(
                keys@,
                #[trigger] prev[a] as int,
                i as int,
            ) by {
                assert(!time_lt(ki, keys@[prev[a] as int]));
                assert(prev[a] < i);
            }
            if pos < prev.len() {
                assert forall|b: int| pos <= b < prev.len() implies entry_before(
                    keys@,
                    i as int,
                    #[trigger] prev[b] as int,
                ) by {
                    assert(time_lt(ki, keys@[prev[pos as int] as int]));
                    if b > pos {
                        assert(entry_before(keys@, prev[pos as int] as int, prev[b] as int));
                        lemma_entry_before_transitive(
                            keys@,
                            i as int,
                            prev[pos as int] as int,
                            prev[b] as int,
                        );
                    }
                }
            }
        }
        order.insert(pos, i);
        proof {
            assert forall|a: int, b: int|
                0 <= a < b < order@.len() implies entry_before(
                keys@,
                #[trigger] order@[a] as int,
                #[trigger] order@[b] as int,
            ) by {
                if b < pos {
                    assert(order@[a] == prev[a] && order@[b] == prev[b]);
                } else if b == pos {
                    assert(order@[a] == prev[a]);
                } else if a < pos {
                    assert(order@[a] == prev[a] && order@[b] == prev[b - 1]);
                    assert(entry_before(keys@, prev[a] as int, i as int));
                    assert(entry_before(keys@, i as int, prev[b - 1] as int));
                    lemma_entry_before_transitive(keys@, prev[a] as int, i as int, prev[b - 1] as int);
                } else if a == pos {
                    assert(order@[b] == prev[b - 1]);
                } else {
                    assert(order@[a] == prev[a - 1] && order@[b] == prev[b - 1]);
                }
            }
            assert forall|a: int| 0 <= a < order@.len() implies #[trigger] order@[a] < i + 1 by {
                if a < pos {
                    assert(order@[a] == prev[a]);
                } else if a > pos {
                    assert(order@[a] == prev[a - 1]);
                }
            }
        }
    }
    order
}


// ---------------------------------------------------------------------------
// Claiming the next action

/// A step of claiming the next pending action of a project, walking the
/// stored entries in creation order.
pub enum ClaimStep {
    /// Read the action stored in entry `entry` and pass it to the next step.
    Read { entry: usize },
    /// Write `action` (now assigned) back to entry `entry`: it is claimed.
    Write { entry: usize, action: Action },
    /// No pending action is left.
    NoneLeft,
}

/// The first position at or after `pos`, in `order`, of an entry whose name
/// is an action file.
pub open spec fn spec_next_action_file(names: Seq<Seq<char>>, order: Seq<usize>, pos: nat) -> Option<
    nat,
>
    decreases order.len() - pos,
{
    if pos >= order.len() {
        None
    } else if spec_is_action_file_name(names[order[pos as int] as int]) {
        Some(pos)
    } else {
        spec_next_action_file(names, order, pos + 1)
    }
}

/// Looking for the next action file from position `pos`: read it, or stop.
pub open spec fn spec_look_from(names: Seq<Seq<char>>, order: Seq<usize>, pos: nat) -> (
    nat,
    ClaimStep,
) {
    match spec_next_action_file(names, order, pos) {
        Some(p) => (p, ClaimStep::Read { entry: order[p as int] }),
        None => (order.len(), ClaimStep::NoneLeft),
    }
}

/// One step of the claim: with nothing read, look for the next action file
/// from `pos`; with the action read at `pos`, claim it when it is pending,
/// else look on from the next position.
pub open spec fn spec_claim_step(
    names: Seq<Seq<char>>,
    order: Seq<usize>,
    pos: nat,
    read: Option<Action>,
) -> (nat, ClaimStep) {
    match read {
        None => spec_look_from(names, order, pos),
        Some(a) => match spec_claim(a) {
            Some(claimed) => (pos, ClaimStep::Write { entry: order[pos as int], action: claimed }),
            None => spec_look_from(names, order, pos + 1),
        },
    }
}

fn look_from(names: &Vec<String>, order: &Vec<usize>, pos: usize) -> (r: (usize, ClaimStep))
    requires
        pos <= order@.len(),
        forall|a: int| 0 <= a < order@.len() ==> #[trigger] order@[a] < names@.len(),
    ensures
        (r.0 as nat, r.1) == spec_look_from(texts(names@), order@, pos as nat),
{
    let mut p = pos;
    while p < order.len() && !is_action_file_name(names[order[p]].as_str())
        invariant
            pos <= p <= order@.len(),
            forall|a: int| 0 <= a < order@.len() ==> #[trigger] order@[a] < names@.len(),
            spec_next_action_file(texts(names@), order@, pos as nat) == spec_next_action_file(
                texts(names@),
                order@,
                p as nat,
            ),
        decreases order@.len() - p,
    {
        p = p + 1;
    }
    if p < order.len() {
        (p, ClaimStep::Read { entry: order[p] })
    } else {
        (order.len(), ClaimStep::NoneLeft)
    }
}

/// The next step of claiming a project's next pending action. `names` are
/// the names of the stored entries, `order` their creation order (see
/// `creation_order`), `pos` the position in `order` reached by the last
/// step, and `read` the action that the last step asked to read, if any.
pub fn claim_step(names: &Vec<String>, order: &Vec<usize>, pos: usize, read: Option<Action>) -> (r: (
    usize,
    ClaimStep,
))
    requires
        pos <= order@.len(),
        read is Some ==> pos < order@.len(),
        forall|a: int| 0 <= a < order@.len() ==> #[trigger] order@[a] < names@.len(),
    ensures
        (r.0 as nat, r.1) == spec_claim_step(texts(names@), order@, pos as nat, read),
{
    let n = order.len();
    match read {
        None => look_from(names, order, pos),
        Some(a) => match claim_if_pending(a) {
            Some(claimed) => (pos, ClaimStep::Write { entry: order[pos], action: claimed }),
            None => look_from(names, order, pos + 1),
        },
    }
}

/// The action that claiming should take from position `pos` on: the first
/// entry, in creation order, that is an action file holding a pending
/// action, written back as assigned; none when there is no such entry.
/// (`contents[e]` is the action stored in entry `e`.)
pub open spec fn spec_first_pending(
    names: Seq<Seq<char>>,
    order: Seq<usize>,
    contents: Seq<Action>,
    pos: nat,
) -> ClaimStep
    decreases order.len() - pos,
{
    if pos >= order.len() {
        ClaimStep::NoneLeft
    } else {
        let e = order[pos as int];
        if spec_is_action_file_name(names[e as int]) && contents[e as int].status
            == ActionStatus::Pending {
            ClaimStep::Write {
                entry: e,
                action: with_status(contents[e as int], ActionStatus::Assigned),
            }
        } else {
            spec_first_pending(names, order, contents, pos + 1)
        }
    }
}

/// Driving `claim_step`: each `Read` is answered with the action stored in
/// that entry, until a step is not a `Read` (or `fuel` steps are taken).
pub open spec fn spec_run_claim(
    names: Seq<Seq<char>>,
    order: Seq<usize>,
    contents: Seq<Action>,
    pos: nat,
    read: Option<Action>,
    fuel: nat,
) -> ClaimStep
    decreases fuel,
{
    let (p, step) = spec_claim_step(names, order, pos, read);
    if fuel == 0 {
        step
    } else {
        match step {
            ClaimStep::Read { entry } => spec_run_claim(
                names,
                order,
                contents,
                p,
                Some(contents[entry as int]),
                (fuel - 1) as nat,
            ),
            _ => step,
        }
    }
}

proof fn lemma_next_action_file(names: Seq<Seq<char>>, order: Seq<usize>, contents: Seq<Action>, pos: nat)
    requires
        pos <= order.len(),
    ensures
        spec_next_action_file(names, order, pos) is None ==> spec_first_pending(
            names,
            order,
            contents,
            pos,
        ) is NoneLeft,
        spec_next_action_file(names, order, pos) matches Some(p) ==> (pos <= p < order.len()
            && spec_is_action_file_name(names[order[p as int] as int])
            && spec_first_pending(names, order, contents, pos) == spec_first_pending(
            names,
            order,
            contents,
            p,
        )),
    decreases order.len() - pos,
{
    if pos < order.len() {
        lemma_next_action_file(names, order, contents, pos + 1);
    }
}

proof fn lemma_run_claim(
    names: Seq<Seq<char>>,
    order: Seq<usize>,
    contents: Seq<Action>,
    pos: nat,
    fuel: nat,
)
    requires
        pos <= order.len(),
        fuel >= order.len() - pos + 1,
    ensures
        spec_run_claim(names, order, contents, pos, None, fuel) == spec_first_pending(
            names,
            order,
            contents,
            pos,
        ),
    decreases order.len() - pos,
{
    lemma_next_action_file(names, order, contents, pos);
    match spec_next_action_file(names, order, pos) {
        None => {},
        Some(p) => {
            let e = order[p as int];
            let a = contents[e as int];
            let f = (fuel - 1) as nat;
            assert(spec_run_claim(names, order, contents, pos, None, fuel) == spec_run_claim(
                names,
                order,
                contents,
                p,
                Some(a),
                f,
            ));
            if a.status == ActionStatus::Pending {
            } else {
                assert(spec_claim_step(names, order, p, Some(a)) == spec_claim_step(
                    names,
                    order,
                    p + 1,
                    None,
                ));
                assert(spec_run_claim(names, order, contents, p, Some(a), f) == spec_run_claim(
                    names,
                    order,
                    contents,
                    p + 1,
                    None,
                    f,
                ));
                lemma_run_claim(names, order, contents, p + 1, f);
            }
        },
    }
}

/// Driven from the start, answering each `Read` with the action stored in
/// that entry, the claim writes back, as assigned, the first action file in
/// creation order that holds a pending action, and ends with `NoneLeft`
/// exactly when there is none. It takes at most one step per entry, and
/// one more.
pub proof fn law_claim_takes_first_pending(
    names: Seq<Seq<char>>,
    order: Seq<usize>,
    contents: Seq<Action>,
)
    ensures
        spec_run_claim(names, order, contents, 0, None, order.len() + 1) == spec_first_pending(
            names,
            order,
            contents,
            0,
        ),
{
    lemma_run_claim(names, order, contents, 0, order.len() + 1);
}

} // verus!
