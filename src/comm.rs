//! What a client asks of the daemon, what it gets back, and how the client
//! turns what a user typed into a firing rule.
use crate::clock::{valid_instant, valid_offset, LocalTime, MAX_UNIX, local_second_of_day, second_of_hour_minute};
use crate::task::{ClockType, Task, TaskID};
use crate::text::{clock_text, duration_secs, parse_at_from, parse_duration, ParseError};
use vstd::prelude::*;
use vstd::string::StringSliceAdditionalSpecFns;

verus! {

/// The name of a group of tasks.
pub type TaskContext = String;

/// A request about task contexts.
#[derive(Clone, Debug)]
pub enum ContextCommand {
    /// Make this context the current one.
    Select { context: TaskContext },
    List,
    Rm { context: TaskContext },
    Define { context: TaskContext },
}

/// A request from a client to the daemon.
#[derive(Clone, Debug)]
pub enum Request {
    /// Description, firing rule, image path, sound path.
    Add(String, ClockType, Option<String>, Option<String>),
    Cancel(TaskID),
    Show,
    ContextRequest(ContextCommand),
}

/// The daemon's answer to a request.
#[derive(Clone, Debug)]
pub enum Response {
    /// A task was added, or a context defined.
    AddSuccess,
    /// A task or a context was removed.
    RemoveSuccess,
    Fail(String),
    GetTasks(Vec<Task>),
    GetContexts(Vec<TaskContext>),
    SetContextSuccess,
}

/// Relies on time's `OffsetDateTime::now_utc` and `unix_timestamp`: the
/// current instant, which the crate keeps within its calendar range (the
/// years -9999 to 9999).
#[verifier::external_body]
pub(crate) fn now_unix() -> (r: i64)
    ensures
        valid_instant(r as int),
{
    time::OffsetDateTime::now_utc().unix_timestamp()
}

/// Relies on time's `UtcOffset::current_local_offset` and `whole_seconds`:
/// the local offset where it can be determined, which the crate bounds to
/// 25:59:59 either way.
#[verifier::external_body]
fn current_offset() -> (r: Option<i32>)
    ensures
        r is Some ==> valid_offset(r->Some_0 as int),
{
    match time::UtcOffset::current_local_offset() {
        Ok(offset) => Some(offset.whole_seconds()),
        Err(_) => None,
    }
}

/// The local UTC offset, in seconds east of UTC.
pub fn get_tzdiff() -> (r: Result<i32, ParseError>)
    ensures
        r is Ok ==> valid_offset(r->Ok_0 as int),
        r is Err ==> r->Err_0 == ParseError::NoLocalOffset,
{
    match current_offset() {
        Some(offset) => Ok(offset),
        None => Err(ParseError::NoLocalOffset),
    }
}

/// The current instant, with the local UTC offset.
pub fn get_local_now() -> (r: Result<LocalTime, ParseError>)
    ensures
        r is Ok ==> r->Ok_0.wf(),
        r is Err ==> r->Err_0 == ParseError::NoLocalOffset,
{
    let offset = get_tzdiff()?;
    Ok(LocalTime { unix: now_unix(), offset })
}

/// Reads a wall-clock time `hour:minute` and gives the next instant at which
/// the local clock shows it.
pub fn parse_at(next_fire: &str) -> (r: Result<LocalTime, ParseError>)
    ensures
        clock_text(next_fire.spec_bytes()) is None ==> r is Err,
        r is Err && clock_text(next_fire.spec_bytes()) is Some && clock_text(
            next_fire.spec_bytes(),
        )->Some_0.0 < 24 && clock_text(next_fire.spec_bytes())->Some_0.1 < 60 ==> r->Err_0
            == ParseError::NoLocalOffset || r->Err_0 == ParseError::OutOfRange,
        r is Ok ==> r->Ok_0.wf() && match clock_text(next_fire.spec_bytes()) {
            Some((h, m)) => h < 24 && m < 60 && local_second_of_day(
                r->Ok_0.unix as int,
                r->Ok_0.offset as int,
            ) / 60 == second_of_hour_minute(h as int, m as int) / 60,
            None => false,
        },
{
    let now = get_local_now()?;
    let r = parse_at_from(next_fire, now);
    proof {
        if let Ok(t) = r {
            let (h, m) = clock_text(next_fire.spec_bytes())->Some_0;
            crate::clock::lemma_next_at(now.unix as int, now.offset as int, h as int, m as int);
        }
    }
    r
}

/// The rule for `after <duration>`: once, that many seconds after `now`. A
/// zero duration is refused.
pub fn clock_after(duration: &str, now: LocalTime) -> (r: Result<ClockType, ParseError>)
    requires
        now.wf(),
    ensures
        match duration_secs(duration.spec_bytes(), 0) {
            None => r == Err::<ClockType, ParseError>(ParseError::InvalidFormat),
            Some(v) => if v == 0 {
                r == Err::<ClockType, ParseError>(ParseError::ZeroDuration)
            } else if now.unix + v <= MAX_UNIX {
                r == Ok::<ClockType, ParseError>(ClockType::Once((now.unix + v) as i64))
            } else {
                r == Err::<ClockType, ParseError>(ParseError::OutOfRange)
            },
        },
        r is Ok ==> r->Ok_0.wf(),
{
    let secs = parse_duration(duration)?;
    if secs == 0 {
        return Err(ParseError::ZeroDuration);
    }
    if secs > (MAX_UNIX - now.unix) as u64 {
        return Err(ParseError::OutOfRange);
    }
    Ok(ClockType::Once(now.unix + secs as i64))
}

/// The rule for `at <time>`: once at the next such wall-clock time after
/// `now`, or every day at that hour and minute.
pub fn clock_at(time: &str, per_day: bool, now: LocalTime) -> (r: Result<ClockType, ParseError>)
    requires
        now.wf(),
    ensures
        r is Ok ==> r->Ok_0.wf(),
        match parse_at_from_spec(time.spec_bytes(), now) {
            Err(e) => r == Err::<ClockType, ParseError>(e),
            Ok(t) => r is Ok && if per_day {
                r->Ok_0 == ClockType::OncePerDay(
                    (local_second_of_day(t as int, now.offset as int) / 3600) as u8,
                    (local_second_of_day(t as int, now.offset as int) % 3600 / 60) as u8,
                )
            } else {
                r->Ok_0 == ClockType::Once(t)
            },
        },
{
    let fire = parse_at_from(time, now)?;
    if per_day {
        let (h, m) = fire.hour_minute();
        Ok(ClockType::OncePerDay(h, m))
    } else {
        Ok(ClockType::Once(fire.unix))
    }
}

/// The instant that `parse_at_from` gives for a text, or its error.
pub open spec fn parse_at_from_spec(s: Seq<u8>, now: LocalTime) -> Result<i64, ParseError> {
    match clock_text(s) {
        None => Err(ParseError::InvalidFormat),
        Some((h, m)) => if h < 24 && m < 60 && crate::clock::next_at(
            now.unix as int,
            now.offset as int,
            h as int,
            m as int,
        ) <= MAX_UNIX {
            Ok(crate::clock::next_at(now.unix as int, now.offset as int, h as int, m as int) as i64)
        } else {
            Err(ParseError::OutOfRange)
        },
    }
}

/// The rule for `per <duration>`: every that many seconds. A zero period is
/// refused.
pub fn clock_per(duration: &str) -> (r: Result<ClockType, ParseError>)
    ensures
        match duration_secs(duration.spec_bytes(), 0) {
            None => r == Err::<ClockType, ParseError>(ParseError::InvalidFormat),
            Some(v) => if v == 0 {
                r == Err::<ClockType, ParseError>(ParseError::ZeroDuration)
            } else if v <= u64::MAX {
                r == Ok::<ClockType, ParseError>(ClockType::Period(v as u64))
            } else {
                r == Err::<ClockType, ParseError>(ParseError::OutOfRange)
            },
        },
{
    let secs = parse_duration(duration)?;
    if secs == 0 {
        return Err(ParseError::ZeroDuration);
    }
    Ok(ClockType::Period(secs))
}

} // verus!
