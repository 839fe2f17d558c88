//! Where Adjent's home directory is, and which project, task and round the
//! current directory (or the explicit and active choices) designates.

use vstd::prelude::*;
use crate::paths::{
    is_plain_name, join_path, lemma_components_join, lemma_split_plain_name, path_components,
    spec_components, spec_join, texts,
};
use crate::storage::{spec_project_dir, spec_round_dir, spec_task_dir};
use crate::text::same_text;

verus! {

/// The project, task and round that a command works on; each may be absent.
#[derive(Debug, Clone, PartialEq, Eq)]
pub struct Context {
    pub project: Option<String>,
    pub task: Option<String>,
    pub round: Option<String>,
}

/// The text of an optional string.
pub open spec fn opt_text(o: Option<String>) -> Option<Seq<char>> {
    match o {
        Some(s) => Some(s@),
        None => None,
    }
}

/// A context as texts.
pub struct ContextView {
    pub project: Option<Seq<char>>,
    pub task: Option<Seq<char>>,
    pub round: Option<Seq<char>>,
}

/// The context with the given project, task and round.
pub open spec fn context_view(
    project: Option<Seq<char>>,
    task: Option<Seq<char>>,
    round: Option<Seq<char>>,
) -> ContextView {
    ContextView { project, task, round }
}

/// The context that designates nothing.
pub open spec fn empty_context() -> ContextView {
    ContextView { project: None, task: None, round: None }
}

impl View for Context {
    type V = ContextView;

    open spec fn view(&self) -> ContextView {
        ContextView {
            project: opt_text(self.project),
            task: opt_text(self.task),
            round: opt_text(self.round),
        }
    }
}

impl Default for Context {
    fn default() -> (c: Self)
        ensures
            c.project is None,
            c.task is None,
            c.round is None,
    {
        Context { project: None, task: None, round: None }
    }
}

/// The context designated by the components of a path relative to Adjent's
/// home, laid out as `state/projects/[project]/tasks/[task]/rounds/[round]`.
/// The project needs `state/projects/` before it; the task needs `tasks`
/// before it; the round needs `rounds` before it and at least seven
/// components.
pub open spec fn spec_context_of_relative(rel: Seq<Seq<char>>) -> ContextView {
    if rel.len() >= 3 && rel[0] == "state"@ && rel[1] == "projects"@ {
        ContextView {
            project: Some(rel[2]),
            task: if rel.len() >= 5 && rel[3] == "tasks"@ {
                Some(rel[4])
            } else {
                None
            },
            round: if rel.len() >= 7 && rel[5] == "rounds"@ {
                Some(rel[6])
            } else {
                None
            },
        }
    } else {
        empty_context()
    }
}

/// Whether `pre` is a prefix of `s`.
pub open spec fn is_prefix_of(pre: Seq<Seq<char>>, s: Seq<Seq<char>>) -> bool {
    pre.len() <= s.len() && s.take(pre.len() as int) == pre
}

/// The context designated by a directory, given its components and those of
/// Adjent's home: nothing unless the directory lies under the home.
pub open spec fn spec_context_of_components(
    cwd: Seq<Seq<char>>,
    home: Seq<Seq<char>>,
) -> ContextView {
    if is_prefix_of(home, cwd) {
        spec_context_of_relative(cwd.skip(home.len() as int))
    } else {
        empty_context()
    }
}

/// The context designated by the directory `cwd` for the home `adjent_home`.
pub open spec fn spec_detect_context(cwd: Seq<char>, adjent_home: Seq<char>) -> ContextView {
    spec_context_of_components(spec_components(cwd), spec_components(adjent_home))
}

/// Whether `home` (as components) is a prefix of `cwd`.
fn components_prefix(home: &Vec<String>, cwd: &Vec<String>) -> (b: bool)
    ensures
        b == is_prefix_of(texts(home@), texts(cwd@)),
{
    let n = home.len();
    if n > cwd.len() {
        return false;
    }
    for i in 0..n
        invariant
            n == home@.len(),
            n <= cwd@.len(),
            forall|j: int| 0 <= j < i ==> home@[j]@ == cwd@[j]@,
    {
        if !same_text(home[i].as_str(), cwd[i].as_str()) {
            assert(texts(cwd@).take(n as int)[i as int] != texts(home@)[i as int]);
            return false;
        }
    }
    assert(texts(cwd@).take(n as int) =~= texts(home@));
    true
}

/// The context designated by a directory, given its components and those of
/// Adjent's home.
pub fn context_from_components(cwd: &Vec<String>, home: &Vec<String>) -> (ctx: Context)
    ensures
        ctx@ == spec_context_of_components(texts(cwd@), texts(home@)),
{
    if !components_prefix(home, cwd) {
        return Context::default();
    }
    let h = home.len();
    let n = cwd.len();
    let ghost rel = texts(cwd@).skip(h as int);
    assert(forall|k: int| 0 <= k < rel.len() ==> rel[k] == cwd@[h + k]@);
    if n - h >= 3 && same_text(cwd[h].as_str(), "state") && same_text(cwd[h + 1].as_str(), "projects") {
        let project = Some(cwd[h + 2].clone());
        let task = if n - h >= 5 && same_text(cwd[h + 3].as_str(), "tasks") {
            Some(cwd[h + 4].clone())
        } else {
            None
        };
        let round = if n - h >= 7 && same_text(cwd[h + 5].as_str(), "rounds") {
            Some(cwd[h + 6].clone())
        } else {
            None
        };
        Context { project, task, round }
    } else {
        Context::default()
    }
}

/// The context designated by the directory `cwd` for Adjent's home
/// `adjent_home`, both as already-resolved Unix paths: the project, task and
/// round read from `state/projects/[project]/tasks/[task]/rounds/[round]`
/// under the home, and nothing for a directory outside the home.
pub fn detect_context(cwd: &str, adjent_home: &str) -> (ctx: Context)
    ensures
        ctx@ == spec_detect_context(cwd@, adjent_home@),
{
    let cwd_components = path_components(cwd);
    let home_components = path_components(adjent_home);
    context_from_components(&cwd_components, &home_components)
}

/// The first present value among `first`, `second`, `third`.
pub open spec fn spec_first_present(
    first: Option<Seq<char>>,
    second: Option<Seq<char>>,
    third: Option<Seq<char>>,
) -> Option<Seq<char>> {
    if first is Some {
        first
    } else if second is Some {
        second
    } else {
        third
    }
}

fn first_present(first: Option<String>, second: Option<String>, third: Option<String>) -> (r:
    Option<String>)
    ensures
        opt_text(r) == spec_first_present(opt_text(first), opt_text(second), opt_text(third)),
{
    match first {
        Some(v) => Some(v),
        None => match second {
            Some(v) => Some(v),
            None => third,
        },
    }
}

/// The context a command works on: for each of project, task and round, the
/// explicit value if given, else the one designated by the current
/// directory, else the active one.
pub fn resolve_context(
    explicit_project: Option<String>,
    explicit_task: Option<String>,
    explicit_round: Option<String>,
    cwd_context: Context,
    active_context: Context,
) -> (ctx: Context)
    ensures
        ctx@.project == spec_first_present(
            opt_text(explicit_project),
            cwd_context@.project,
            active_context@.project,
        ),
        ctx@.task == spec_first_present(
            opt_text(explicit_task),
            cwd_context@.task,
            active_context@.task,
        ),
        ctx@.round == spec_first_present(
            opt_text(explicit_round),
            cwd_context@.round,
            active_context@.round,
        ),
{
    Context {
        project: first_present(explicit_project, cwd_context.project, active_context.project),
        task: first_present(explicit_task, cwd_context.task, active_context.task),
        round: first_present(explicit_round, cwd_context.round, active_context.round),
    }
}

/// Adjent's home directory before it is resolved on disk: the value of
/// `ADJENT_HOME` when it is set, else `.adjent` under `HOME`; `None` when
/// neither variable is set.
pub fn adjent_home_from(adjent_home_var: Option<String>, home_var: Option<String>) -> (home:
    Option<String>)
    ensures
        adjent_home_var is Some ==> home == adjent_home_var,
        adjent_home_var is None && home_var is Some ==> home is Some && home->0@
            == spec_join(home_var->0@, ".adjent"@),
        adjent_home_var is None && home_var is None ==> home is None,
{
    match adjent_home_var {
        Some(v) => Some(v),
        None => match home_var {
            Some(h) => Some(join_path(h.as_str(), ".adjent")),
            None => None,
        },
    }
}

/// The active context after activating project `id`: only the project
/// changes.
pub fn activate_project(current: Context, id: String) -> (next: Context)
    ensures
        next.project == Some(id),
        next.task == current.task,
        next.round == current.round,
{
    Context { project: Some(id), task: current.task, round: current.round }
}

/// The active context after activating task `task` of project `project`:
/// the project and the task change, the round stays.
pub fn activate_task(current: Context, project: String, task: String) -> (next: Context)
    ensures
        next.project == Some(project),
        next.task == Some(task),
        next.round == current.round,
{
    Context { project: Some(project), task: Some(task), round: current.round }
}

/// The active context after activating round `round` of task `task` of
/// project `project`: all three are set.
pub fn activate_round(project: String, task: String, round: String) -> (next: Context)
    ensures
        next.project == Some(project),
        next.task == Some(task),
        next.round == Some(round),
{
    Context { project: Some(project), task: Some(task), round: Some(round) }
}


proof fn lemma_join_plain(base: Seq<char>, w: Seq<char>)
    requires
        base.len() > 0,
        is_plain_name(w),
    ensures
        spec_components(spec_join(base, w)) == spec_components(base).push(w),
        spec_join(base, w).len() > 0,
{
    lemma_components_join(base, w);
    lemma_split_plain_name(w);
    assert(spec_components(base) + seq![w] =~= spec_components(base).push(w));
}

/// The directories that the local state gives a project, a task and a round
/// are recognized as theirs: inside a round's directory the context is that
/// round of that task of that project; inside a task's directory, that task
/// of that project; inside a project's directory, that project. (The home
/// must be non-empty, and the ids must be single path components.)
pub proof fn law_state_directories_are_detected(
    home: Seq<char>,
    project: Seq<char>,
    task: Seq<char>,
    round: Seq<char>,
)
    requires
        home.len() > 0,
        is_plain_name(project),
        is_plain_name(task),
        is_plain_name(round),
    ensures
        spec_detect_context(spec_round_dir(home, project, task, round), home) == context_view(
            Some(project),
            Some(task),
            Some(round),
        ),
        spec_detect_context(spec_round_dir(home, project, task, round) + seq!['/'], home)
            == context_view(Some(project), Some(task), Some(round)),
        spec_detect_context(spec_task_dir(home, project, task), home) == context_view(
            Some(project),
            Some(task),
            None,
        ),
        spec_detect_context(spec_project_dir(home, project), home) == context_view(
            Some(project),
            None,
            None,
        ),
{
    reveal_strlit("state");
    reveal_strlit("projects");
    reveal_strlit("tasks");
    reveal_strlit("rounds");
    let h = spec_components(home);
    let d1 = spec_join(home, "state"@);
    lemma_join_plain(home, "state"@);
    let d2 = spec_join(d1, "projects"@);
    lemma_join_plain(d1, "projects"@);
    let d3 = spec_join(d2, project);
    lemma_join_plain(d2, project);
    let d4 = spec_join(d3, "tasks"@);
    lemma_join_plain(d3, "tasks"@);
    let d5 = spec_join(d4, task);
    lemma_join_plain(d4, task);
    let d6 = spec_join(d5, "rounds"@);
    lemma_join_plain(d5, "rounds"@);
    let d7 = spec_join(d6, round);
    lemma_join_plain(d6, round);
    let r3 = seq!["state"@, "projects"@, project];
    let r5 = r3 + seq!["tasks"@, task];
    let r7 = r5 + seq!["rounds"@, round];
    assert(spec_components(d3) =~= h + r3);
    assert(spec_components(d5) =~= h + r5);
    assert(spec_components(d7) =~= h + r7);
    assert((h + r3).take(h.len() as int) =~= h);
    assert((h + r3).skip(h.len() as int) =~= r3);
    assert((h + r5).take(h.len() as int) =~= h);
    assert((h + r5).skip(h.len() as int) =~= r5);
    assert((h + r7).take(h.len() as int) =~= h);
    assert((h + r7).skip(h.len() as int) =~= r7);
    assert(r5[3] == "tasks"@);
    assert(r7[5] == "rounds"@);
    crate::paths::lemma_components_trailing_separator(d7);
}


/// The state layout as components: `state/projects/[project]`, then
/// `tasks/[task]`, then `rounds/[round]`.
pub open spec fn project_components(project: Seq<char>) -> Seq<Seq<char>> {
    seq!["state"@, "projects"@, project]
}

/// Any directory at or below a project's, task's or round's directory
/// under Adjent's home (whatever lies further below, and whatever the
/// home's components are) designates that project; below a task's
/// directory, that task of it; and below a round's directory, that round
/// of that task of that project.
pub proof fn law_directories_below_state_are_detected(
    home: Seq<Seq<char>>,
    project: Seq<char>,
    task: Seq<char>,
    round: Seq<char>,
    below: Seq<Seq<char>>,
)
    ensures
        ({
            let cwd = home + project_components(project) + below;
            let ctx = spec_context_of_components(cwd, home);
            ctx.project == Some(project)
        }),
        ({
            let cwd = home + project_components(project) + seq!["tasks"@, task] + below;
            let ctx = spec_context_of_components(cwd, home);
            ctx.project == Some(project) && ctx.task == Some(task)
        }),
        spec_context_of_components(
            home + project_components(project) + seq!["tasks"@, task, "rounds"@, round] + below,
            home,
        ) == context_view(Some(project), Some(task), Some(round)),
{
    let p3 = project_components(project);
    let c3 = home + p3 + below;
    assert(c3.take(home.len() as int) =~= home);
    assert(c3.skip(home.len() as int) =~= p3 + below);
    let c5 = home + p3 + seq!["tasks"@, task] + below;
    assert(c5.take(home.len() as int) =~= home);
    assert(c5.skip(home.len() as int) =~= p3 + seq!["tasks"@, task] + below);
    let c7 = home + p3 + seq!["tasks"@, task, "rounds"@, round] + below;
    assert(c7.take(home.len() as int) =~= home);
    let r7 = c7.skip(home.len() as int);
    assert(r7 =~= p3 + seq!["tasks"@, task, "rounds"@, round] + below);
    assert(r7[0] == "state"@ && r7[1] == "projects"@ && r7[2] == project);
    assert(r7[3] == "tasks"@ && r7[4] == task && r7[5] == "rounds"@ && r7[6] == round);
}

/// Any path at or below a round's directory, the round's directory joined
/// with any relative rest, designates that round of that task of that
/// project. (The home must be non-empty, and the ids must be single path
/// components.)
pub proof fn law_paths_below_a_round_are_detected(
    home: Seq<char>,
    project: Seq<char>,
    task: Seq<char>,
    round: Seq<char>,
    rest: Seq<char>,
)
    requires
        home.len() > 0,
        is_plain_name(project),
        is_plain_name(task),
        is_plain_name(round),
        !(rest.len() > 0 && rest[0] == '/'),
    ensures
        spec_detect_context(spec_join(spec_round_dir(home, project, task, round), rest), home)
            == context_view(Some(project), Some(task), Some(round)),
{
    reveal_strlit("state");
    reveal_strlit("projects");
    reveal_strlit("tasks");
    reveal_strlit("rounds");
    let h = spec_components(home);
    let d1 = spec_join(home, "state"@);
    lemma_join_plain(home, "state"@);
    let d2 = spec_join(d1, "projects"@);
    lemma_join_plain(d1, "projects"@);
    let d3 = spec_join(d2, project);
    lemma_join_plain(d2, project);
    let d4 = spec_join(d3, "tasks"@);
    lemma_join_plain(d3, "tasks"@);
    let d5 = spec_join(d4, task);
    lemma_join_plain(d4, task);
    let d6 = spec_join(d5, "rounds"@);
    lemma_join_plain(d5, "rounds"@);
    let d7 = spec_join(d6, round);
    lemma_join_plain(d6, round);
    lemma_components_join(d7, rest);
    let below = crate::paths::split_parts(rest, seq![]);
    assert(spec_components(spec_join(d7, rest)) =~= h + project_components(project) + seq![
        "tasks"@,
        task,
        "rounds"@,
        round,
    ] + below);
    law_directories_below_state_are_detected(h, project, task, round, below);
}

} // verus!
