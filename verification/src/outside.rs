//! The calls into outside crates that the library makes: the time an action
//! is created at, the day a task is created on, and the random id of an
//! action.

use vstd::prelude::*;
use chrono::Datelike;

verus! {

/// A point in time: whole seconds since the Unix epoch and the nanoseconds
/// past that second.
#[derive(Clone, Copy, Debug, PartialEq, Eq, Structural)]
pub struct Timestamp {
    pub secs: i64,
    pub nanos: u32,
}

/// The current time: `std::time::SystemTime::now()` converted by chrono's
/// `From<SystemTime> for DateTime<Utc>` and read back as seconds and
/// nanoseconds since the Unix epoch. The conversion handles times before the
/// epoch (negative seconds) and always hands chrono nanoseconds below one
/// second, so those stay below one second. Which time it is is the clock's,
/// so only that range is stated. The conversion unwraps chrono's own range
/// check, which fails only for a clock set beyond the years chrono supports
/// (about a quarter of a million years either side of the epoch).
#[verifier::external_body]
pub(crate) fn now_utc() -> (t: Timestamp)
    ensures
        t.nanos < 1_000_000_000,
{
    let now = chrono::DateTime::<chrono::Utc>::from(std::time::SystemTime::now());
    Timestamp { secs: now.timestamp(), nanos: now.timestamp_subsec_nanos() }
}

/// Today's date in the machine's time zone: `std::time::SystemTime::now()`
/// converted by chrono's `From<SystemTime> for DateTime<Local>`, read through
/// `Datelike::year`, `month` and `day`. Which day it is depends on the clock
/// and the time zone; the contract states what holds of every outcome: the
/// month is 1 to 12 and the day 1 to 31, as `Datelike` documents. The year
/// may be any that chrono holds, before year 1 too. Left unsaid: the local
/// offset comes from the time-zone database, and chrono unwraps it; that
/// fails only on a database entry with an offset of a whole day or more, which
/// chrono's own parser of `TZ` strings refuses.
#[verifier::external_body]
pub(crate) fn local_date() -> (d: (i32, u32, u32))
    ensures
        1 <= d.1 <= 12,
        1 <= d.2 <= 31,
{
    let today = chrono::DateTime::<chrono::Local>::from(std::time::SystemTime::now());
    (today.year(), today.month(), today.day())
}

/// A lower-case hexadecimal digit.
pub open spec fn is_lower_hex(c: char) -> bool {
    ('0' <= c && c <= '9') || ('a' <= c && c <= 'f')
}

/// The shape of a hyphenated UUID: 36 characters, `-` at positions 8, 13,
/// 18 and 23, lower-case hexadecimal digits elsewhere.
pub open spec fn is_hyphenated_uuid(s: Seq<char>) -> bool {
    &&& s.len() == 36
    &&& forall|i: int|
        0 <= i < 36 ==> if i == 8 || i == 13 || i == 18 || i == 23 {
            s[i] == '-'
        } else {
            is_lower_hex(#[trigger] s[i])
        }
}

/// A fresh random identifier: `uuid::Uuid::new_v4()` printed by its
/// `Display`, which writes the hyphenated lower-case form. Which value comes
/// out is chance; the contract states only its shape.
#[verifier::external_body]
pub(crate) fn new_uuid_v4() -> (id: String)
    ensures
        is_hyphenated_uuid(id@),
{
    uuid::Uuid::new_v4().to_string()
}

} // verus!
