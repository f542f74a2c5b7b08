//! Tasks and their firing rules.
use crate::clock::{valid_hour_minute, valid_instant, MAX_UNIX, MIN_UNIX};
use crate::comm::now_unix;
use vstd::prelude::*;

verus! {

/// The identifier of a task: an opaque string, unique per task.
pub type TaskID = String;

/// When a task fires.
#[derive(Clone, Copy, Debug, PartialEq, Eq, Structural)]
pub enum ClockType {
    /// Once, at this instant (seconds since the Unix epoch).
    Once(i64),
    /// Every this many seconds, until cancelled.
    Period(u64),
    /// Every day when the local wall clock reads this hour and minute.
    OncePerDay(u8, u8),
}

impl ClockType {
    /// A rule that the scheduler can run: an instant in the calendar range, a
    /// non-zero period, a wall-clock time that exists.
    pub open spec fn wf(self) -> bool {
        match self {
            ClockType::Once(t) => valid_instant(t as int),
            ClockType::Period(p) => p > 0,
            ClockType::OncePerDay(h, m) => valid_hour_minute(h as int, m as int),
        }
    }

    /// Whether the scheduler can run this rule.
    pub fn is_valid(&self) -> (r: bool)
        ensures
            r == self.wf(),
    {
        match *self {
            ClockType::Once(t) => MIN_UNIX <= t && t <= MAX_UNIX,
            ClockType::Period(p) => p > 0,
            ClockType::OncePerDay(h, m) => h < 24 && m < 60,
        }
    }
}

/// A reminder: what to show, and when.
#[derive(Clone, Debug)]
pub struct Task {
    /// When the task was made (seconds since the Unix epoch); not used for
    /// scheduling.
    pub created_at: i64,
    pub description: String,
    /// The unique identifier of the task.
    pub task_id: TaskID,
    pub clock_type: ClockType,
    /// An image to show with the notification.
    pub image_path: Option<String>,
    /// A sound to play with the notification.
    pub sound_path: Option<String>,
}

/// Relies on nanoid's `format` with its default generator and its SAFE
/// alphabet of 64 ASCII characters, as `nanoid!()` calls it: a random
/// identifier of 21 characters. It panics only where the system's random
/// source fails.
#[verifier::external_body]
fn new_task_id() -> (r: String)
    ensures
        r@.len() == 21,
{
    nanoid::format(nanoid::rngs::default, &nanoid::alphabet::SAFE, 21)
}

impl Task {
    /// A new task with a fresh random identifier, stamped with the current
    /// time.
    pub fn new(description: String, clock_type: ClockType) -> (r: Task)
        ensures
            r.description == description,
            r.clock_type == clock_type,
            r.task_id@.len() == 21,
            r.image_path is None,
            r.sound_path is None,
            valid_instant(r.created_at as int),
    {
        Task {
            description,
            clock_type,
            created_at: now_unix(),
            task_id: new_task_id(),
            image_path: None,
            sound_path: None,
        }
    }

    /// The task with the image and sound to present with its notification.
    pub fn with_media(self, image_path: Option<String>, sound_path: Option<String>) -> (r: Task)
        ensures
            r.description == self.description,
            r.task_id == self.task_id,
            r.clock_type == self.clock_type,
            r.created_at == self.created_at,
            r.image_path == image_path,
            r.sound_path == sound_path,
    {
        Task { image_path, sound_path, ..self }
    }
}

} // verus!
