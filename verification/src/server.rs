//! What the HTTP API exchanges, and the decisions of its handlers: how a
//! task's id is made from its name and read back, which rounds are listed
//! as what, and the action recorded when a round is scheduled.

use vstd::prelude::*;
use crate::numbers::{all_digits, decimal, lemma_decimal_digits, spec_decimal};
use crate::outside::{is_hyphenated_uuid, local_date, new_uuid_v4, now_utc, Timestamp};
use crate::text::push_char;
use crate::storage::{is_valid_identifier, spec_is_valid_identifier, Action, ActionStatus};

verus! {

#[derive(Clone, Debug)]
pub struct Project {
    pub id: String,
}

#[derive(Debug)]
pub struct ProjectCreate {
    pub id: String,
}

#[derive(Clone, Debug)]
pub struct Task {
    pub id: String,
    pub name: String,
}

#[derive(Debug)]
pub struct TaskCreate {
    pub name: String,
}

#[derive(Clone, Debug)]
pub struct Round {
    pub id: String,
    pub status: String,
}

#[derive(Debug)]
pub struct RoundCreate {
    pub from_round_id: Option<String>,
}

#[derive(Debug)]
pub struct ActionRequest {
    pub action: String,
}

#[derive(Debug)]
pub struct ActionStatusUpdate {
    pub status: ActionStatus,
}

/// Why a request to create a task is refused.
#[derive(Clone, Copy, Debug, PartialEq, Eq, Structural)]
pub enum TaskError {
    /// A task name must be ASCII letters and digits, starting with a letter.
    InvalidName,
}

/// What follows the first `-` of `s`, if it has one.
pub open spec fn after_first_dash(s: Seq<char>) -> Option<Seq<char>>
    decreases s.len(),
{
    if s.len() == 0 {
        None
    } else if s[0] == '-' {
        Some(s.drop_first())
    } else {
        after_first_dash(s.drop_first())
    }
}

/// The name of a task read from its id `[date]-[name]`: what follows the
/// first `-`, or the whole id when it has none.
pub open spec fn spec_task_name_of(id: Seq<char>) -> Seq<char> {
    match after_first_dash(id) {
        Some(rest) => rest,
        None => id,
    }
}

/// The id of a task named `name` created on `date`: `[date]-[name]`.
pub open spec fn spec_task_id_for(date: Seq<char>, name: Seq<char>) -> Seq<char> {
    date + seq!['-'] + name
}

/// The name of a task read from its id.
pub fn task_name_of(id: &str) -> (name: String)
    ensures
        name@ == spec_task_name_of(id@),
{
    let n = id.unicode_len();
    let mut i: usize = 0;
    assert(id@.skip(0) =~= id@);
    while i < n
        invariant
            n == id@.len(),
            i <= n,
            after_first_dash(id@) == after_first_dash(id@.skip(i as int)),
        decreases n - i,
    {
        assert(id@.skip(i as int)[0] == id@[i as int]);
        assert(id@.skip(i as int).drop_first() =~= id@.skip(i + 1));
        if id.get_char(i) == '-' {
            let rest = id.substring_char(i + 1, n);
            assert(rest@ =~= id@.skip(i + 1));
            return String::from_str(rest);
        }
        i = i + 1;
    }
    assert(id@.skip(n as int) =~= seq![]);
    String::from_str(id)
}

/// The task listed under id `id`: the id and the name read from it.
pub fn task_from_id(id: String) -> (task: Task)
    ensures
        task.id == id,
        task.name@ == spec_task_name_of(id@),
{
    let name = task_name_of(id.as_str());
    Task { id, name }
}

/// The id of a task named `name` created on `date` (`yyyymmdd`).
pub fn task_id_for(date: &str, name: &str) -> (id: String)
    ensures
        id@ == spec_task_id_for(date@, name@),
{
    let mut id = String::from_str(date);
    id.append("-");
    id.append(name);
    proof {
        reveal_strlit("-");
    }
    assert(id@ =~= spec_task_id_for(date@, name@));
    id
}

proof fn lemma_after_first_dash(date: Seq<char>, rest: Seq<char>)
    requires
        forall|i: int| 0 <= i < date.len() ==> date[i] != '-',
    ensures
        after_first_dash(date + seq!['-'] + rest) == Some(rest),
    decreases date.len(),
{
    let s = date + seq!['-'] + rest;
    if date.len() == 0 {
        assert(s.drop_first() =~= rest);
    } else {
        assert(s.drop_first() =~= date.drop_first() + seq!['-'] + rest);
        lemma_after_first_dash(date.drop_first(), rest);
    }
}

/// The name of a task reads back from its id, for a date without `-`
/// (such as `yyyymmdd`).
pub proof fn law_task_name_round_trip(date: Seq<char>, name: Seq<char>)
    requires
        forall|i: int| 0 <= i < date.len() ==> date[i] != '-',
    ensures
        spec_task_name_of(spec_task_id_for(date, name)) == name,
{
    lemma_after_first_dash(date, name);
}

// ---------------------------------------------------------------------------
// Task dates

/// `n` zeros.
pub open spec fn zeros(n: nat) -> Seq<char> {
    Seq::new(n, |i: int| '0')
}

/// `s` with zeros in front up to `width` characters.
pub open spec fn padded(s: Seq<char>, width: nat) -> Seq<char> {
    if s.len() < width {
        zeros((width - s.len()) as nat) + s
    } else {
        s
    }
}

/// The year as `%Y` prints it: a year from 0 to 9999 as four digits,
/// zero-padded; a later one as `+` and its digits; one before year 0 as `-`
/// and its magnitude, zero-padded to four digits.
pub open spec fn spec_year_text(year: int) -> Seq<char> {
    if 0 <= year <= 9999 {
        padded(spec_decimal(year as nat), 4)
    } else if year > 9999 {
        seq!['+'] + spec_decimal(year as nat)
    } else {
        seq!['-'] + padded(spec_decimal((-year) as nat), 4)
    }
}

/// The date prefix of a task id, `yyyymmdd` (`%Y%m%d`).
pub open spec fn spec_date_stamp(year: int, month: nat, day: nat) -> Seq<char> {
    spec_year_text(year) + padded(spec_decimal(month), 2) + padded(spec_decimal(day), 2)
}

fn pad_into(s: &mut String, digits: String, width: usize)
    ensures
        final(s)@ == old(s)@ + padded(digits@, width as nat),
{
    let n = digits.unicode_len();
    let mut k: usize = n;
    let ghost start = s@;
    while k < width
        invariant
            n == digits@.len(),
            n <= k <= if n < width { width } else { n },
            s@ == start + zeros((k - n) as nat),
        decreases width - k,
    {
        push_char(s, '0');
        assert(zeros((k - n) as nat).push('0') =~= zeros((k + 1 - n) as nat));
        k = k + 1;
    }
    s.append(digits.as_str());
    assert(s@ =~= start + padded(digits@, width as nat));
}

/// The date prefix of a task id for a day: `yyyymmdd` as chrono's
/// `%Y%m%d` writes it.
pub fn date_stamp(year: i32, month: u32, day: u32) -> (stamp: String)
    ensures
        stamp@ == spec_date_stamp(year as int, month as nat, day as nat),
{
    let mut stamp = String::new();
    if 0 <= year && year <= 9999 {
        pad_into(&mut stamp, decimal(year as u32), 4);
    } else if year > 9999 {
        push_char(&mut stamp, '+');
        stamp.append(decimal(year as u32).as_str());
    } else {
        push_char(&mut stamp, '-');
        let magnitude: u32 = (0i64 - year as i64) as u32;
        pad_into(&mut stamp, decimal(magnitude), 4);
    }
    pad_into(&mut stamp, decimal(month), 2);
    pad_into(&mut stamp, decimal(day), 2);
    assert(stamp@ =~= spec_date_stamp(year as int, month as nat, day as nat));
    stamp
}

proof fn lemma_padded_digits(s: Seq<char>, width: nat)
    requires
        all_digits(s),
    ensures
        all_digits(padded(s, width)),
{
    let p = padded(s, width);
    assert forall|i: int| 0 <= i < p.len() implies crate::numbers::is_digit(#[trigger] p[i]) by {
        if s.len() < width && i < width - s.len() {
        } else if s.len() < width {
            assert(p[i] == s[i - (width - s.len())]);
        }
    }
}

/// From year 0 on, a date prefix holds no `-`, so a task's name reads back
/// from its id.
pub proof fn law_date_stamp_has_no_dash(year: int, month: nat, day: nat)
    requires
        year >= 0,
    ensures
        forall|i: int| 0 <= i < spec_date_stamp(year, month, day).len() ==> spec_date_stamp(
            year,
            month,
            day,
        )[i] != '-',
{
    lemma_decimal_digits(year as nat);
    lemma_decimal_digits(month);
    lemma_decimal_digits(day);
    lemma_padded_digits(spec_decimal(month), 2);
    lemma_padded_digits(spec_decimal(day), 2);
    lemma_padded_digits(spec_decimal(year as nat), 4);
    let y = spec_year_text(year);
    let m = padded(spec_decimal(month), 2);
    let d = padded(spec_decimal(day), 2);
    let st = spec_date_stamp(year, month, day);
    assert forall|i: int| 0 <= i < st.len() implies st[i] != '-' by {
        if i < y.len() {
            if year > 9999 && i > 0 {
                assert(y[i] == spec_decimal(year as nat)[i - 1]);
                assert(crate::numbers::is_digit(spec_decimal(year as nat)[i - 1]));
            } else if year <= 9999 {
                assert(crate::numbers::is_digit(y[i]));
            }
        } else if i < y.len() + m.len() {
            assert(st[i] == m[i - y.len()]);
            assert(crate::numbers::is_digit(m[i - y.len()]));
        } else {
            assert(st[i] == d[i - y.len() - m.len()]);
            assert(crate::numbers::is_digit(d[i - y.len() - m.len()]));
        }
    }
}

proof fn lemma_decimal_len(n: nat)
    ensures
        n < 10 ==> spec_decimal(n).len() == 1,
        n < 100 ==> spec_decimal(n).len() <= 2,
        n < 1000 ==> spec_decimal(n).len() <= 3,
        n < 10000 ==> spec_decimal(n).len() <= 4,
    decreases n,
{
    if n >= 10 {
        lemma_decimal_len(n / 10);
        assert(spec_decimal(n).len() == spec_decimal(n / 10).len() + 1);
    }
}

/// For the years 0 to 9999 a date prefix is eight ASCII digits,
/// `yyyymmdd`.
pub proof fn law_date_stamp_is_eight_digits(year: nat, month: nat, day: nat)
    requires
        year <= 9999,
        1 <= month <= 12,
        1 <= day <= 31,
    ensures
        spec_date_stamp(year as int, month, day).len() == 8,
        all_digits(spec_date_stamp(year as int, month, day)),
{
    lemma_decimal_len(year);
    lemma_decimal_len(month);
    lemma_decimal_len(day);
    lemma_decimal_digits(year);
    lemma_decimal_digits(month);
    lemma_decimal_digits(day);
    lemma_padded_digits(spec_decimal(year), 4);
    lemma_padded_digits(spec_decimal(month), 2);
    lemma_padded_digits(spec_decimal(day), 2);
    let y = padded(spec_decimal(year), 4);
    let m = padded(spec_decimal(month), 2);
    let d = padded(spec_decimal(day), 2);
    let st = spec_date_stamp(year as int, month, day);
    assert(st == y + m + d);
    assert forall|i: int| 0 <= i < st.len() implies crate::numbers::is_digit(#[trigger] st[i]) by {
        if i < 4 {
            assert(st[i] == y[i]);
        } else if i < 6 {
            assert(st[i] == m[i - 4]);
        } else {
            assert(st[i] == d[i - 6]);
        }
    }
}

/// Creating a task named `name` today: refused unless the name has the
/// documented format; otherwise the task `[yyyymmdd]-[name]`, dated by the
/// machine's clock and time zone. From year 0 on, its name reads back from
/// its id.
pub fn new_task(name: String) -> (r: Result<Task, TaskError>)
    ensures
        !spec_is_valid_identifier(name@) ==> r == Err::<Task, TaskError>(TaskError::InvalidName),
        spec_is_valid_identifier(name@) ==> (r matches Ok(task) && task.name == name && (exists|
            year: int,
            month: nat,
            day: nat,
        |
            1 <= month <= 12 && 1 <= day <= 31 && task.id@ == spec_task_id_for(
                #[trigger] spec_date_stamp(year, month, day),
                name@,
            ) && (year >= 0 ==> spec_task_name_of(task.id@) == name@))),
{
    if !is_valid_identifier(name.as_str()) {
        return Err(TaskError::InvalidName);
    }
    let (year, month, day) = local_date();
    let stamp = date_stamp(year, month, day);
    let id = task_id_for(stamp.as_str(), name.as_str());
    proof {
        if year >= 0 {
            law_date_stamp_has_no_dash(year as int, month as nat, day as nat);
            law_task_name_round_trip(stamp@, name@);
        }
    }
    Ok(Task { id, name })
}

/// A round as the round list shows it.
pub fn listed_round(id: String) -> (r: Round)
    ensures
        r.id == id,
        r.status@ == "active"@,
{
    Round { id, status: String::from_str("active") }
}

/// The round a bump has just created.
pub fn created_round(id: String) -> (r: Round)
    ensures
        r.id == id,
        r.status@ == "pending"@,
{
    Round { id, status: String::from_str("pending") }
}

/// The action recorded when a round is scheduled: pending, with the given
/// id and creation time.
pub fn pending_action(
    id: String,
    project_id: String,
    task_id: String,
    round_id: String,
    action: String,
    created_at: Timestamp,
) -> (a: Action)
    ensures
        a.id == id,
        a.project_id == project_id,
        a.task_id == task_id,
        a.round_id == round_id,
        a.action == action,
        a.status == ActionStatus::Pending,
        a.created_at == created_at,
{
    Action { id, project_id, task_id, round_id, action, status: ActionStatus::Pending, created_at }
}

/// Scheduling `action` on a round: a new pending action with a fresh random
/// id, created now.
pub fn new_action(project_id: String, task_id: String, round_id: String, action: String) -> (a:
    Action)
    ensures
        a.project_id == project_id,
        a.task_id == task_id,
        a.round_id == round_id,
        a.action == action,
        a.status == ActionStatus::Pending,
        is_hyphenated_uuid(a.id@),
        a.created_at.nanos < 1_000_000_000,
{
    let id = new_uuid_v4();
    let created_at = now_utc();
    pending_action(id, project_id, task_id, round_id, action, created_at)
}

} // verus!
