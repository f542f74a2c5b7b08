//! The decisions of a running task: when to sleep, when to notify, when to
//! stop. The caller performs each action (a sleep raced against the task's
//! cancellation signal, a notification) and reports back what happened.
use crate::clock::{
    lemma_next_daily, lemma_same_time_of_day_later_day, local_day, local_second_of_day, next_daily,
    next_daily_fire, second_of_hour_minute, valid_instant, valid_offset, MAX_UNIX, MIN_UNIX,
};
use crate::task::ClockType;
use vstd::prelude::*;

verus! {

/// Where a task stands in its cycle.
#[derive(Clone, Copy, Debug, PartialEq, Eq, Structural)]
pub enum Phase {
    /// Waiting for its fire time (or not started yet).
    Armed,
    /// Woken: a notification is being delivered.
    Firing,
    /// Done for good: fired for the last time, cancelled, or failed.
    Finished,
}

/// What happened since the last action.
#[derive(Clone, Copy, Debug, PartialEq, Eq, Structural)]
pub enum TimerEvent {
    /// The task begins to run; the clock reads this instant.
    Start(i64),
    /// The sleep elapsed before any cancellation signal came.
    Wake,
    /// The notification was delivered (`true`) or failed (`false`); the clock
    /// now reads this instant.
    Notified(bool, i64),
    /// A cancellation signal arrived, or its channel closed.
    Cancel,
}

/// What the caller is to do next.
#[derive(Clone, Copy, Debug, PartialEq, Eq, Structural)]
pub enum Action {
    /// Race a sleep of this many seconds against the cancellation signal.
    Sleep(u64),
    /// Deliver one notification for the task.
    Notify,
    /// Stop running the task.
    Finish,
}

/// The state of one running task.
pub struct Timer {
    pub clock_type: ClockType,
    /// The fixed UTC offset, in seconds, under which daily rules are read.
    pub offset: i32,
    pub phase: Phase,
    /// How many notifications the task has asked for so far.
    pub fires: Ghost<nat>,
    /// For a daily rule, the instant its current sleep ends: its latest
    /// target (`MIN_UNIX` before the first).
    pub due: i64,
}

impl Timer {
    pub open spec fn wf(self) -> bool {
        &&& self.clock_type.wf()
        &&& valid_offset(self.offset as int)
        &&& MIN_UNIX <= self.due <= MAX_UNIX + 86400
    }

    /// Where a daily rule counts its next target from: the instant reported,
    /// or the latest target where the report lies before it. So a target is
    /// never followed by one on the same day, whatever instant is reported.
    pub open spec fn arm_base(self, now: int) -> int {
        if now < self.due {
            self.due as int
        } else {
            now
        }
    }

    /// What the rule asks for when it is (re-)armed at instant `now`: a Once
    /// rule whose instant has passed finishes, any other sleeps until its next
    /// fire time; a daily rule whose next target lies past the calendar range
    /// finishes.
    pub open spec fn arm(self, now: int) -> Action {
        match self.clock_type {
            ClockType::Once(target) => if target <= now {
                Action::Finish
            } else {
                Action::Sleep((target - now) as u64)
            },
            ClockType::Period(p) => Action::Sleep(p),
            ClockType::OncePerDay(h, m) => if self.arm_base(now) > MAX_UNIX {
                Action::Finish
            } else {
                Action::Sleep(
                    (next_daily(self.arm_base(now), self.offset as int, h as int, m as int)
                        - now) as u64,
                )
            },
        }
    }

    /// The target after arming at `now`.
    pub open spec fn armed_due(self, now: int) -> i64 {
        match self.clock_type {
            ClockType::OncePerDay(h, m) => if self.arm_base(now) > MAX_UNIX {
                self.due
            } else {
                next_daily(self.arm_base(now), self.offset as int, h as int, m as int) as i64
            },
            _ => self.due,
        }
    }

    /// The timer armed at `now`.
    pub open spec fn armed(self, now: int) -> Timer {
        Timer { due: self.armed_due(now), ..self }
    }

    /// The same timer in another phase, with `extra` more fires counted.
    pub open spec fn moved(self, phase: Phase, extra: nat) -> Timer {
        Timer { phase, fires: Ghost((self.fires@ + extra) as nat), ..self }
    }

    /// The state after event `e`, and the action that it asks for. An event
    /// that does not fit the phase (a wake before a start, a second report of
    /// one notification) ends the task.
    pub open spec fn next(self, e: TimerEvent) -> (Timer, Action) {
        if self.phase == Phase::Finished {
            (self, Action::Finish)
        } else {
            match e {
                TimerEvent::Start(now) => if self.phase == Phase::Armed {
                    let a = self.arm(now as int);
                    if a == Action::Finish {
                        (self.moved(Phase::Finished, 0), a)
                    } else {
                        (self.armed(now as int), a)
                    }
                } else {
                    (self.moved(Phase::Finished, 0), Action::Finish)
                },
                TimerEvent::Wake => if self.phase == Phase::Armed {
                    (self.moved(Phase::Firing, 1), Action::Notify)
                } else {
                    (self.moved(Phase::Finished, 0), Action::Finish)
                },
                TimerEvent::Notified(delivered, now) => if self.phase == Phase::Firing {
                    match self.clock_type {
                        ClockType::Once(_) => (self.moved(Phase::Finished, 0), Action::Finish),
                        _ => if delivered {
                            (self.moved(Phase::Armed, 0).armed(now as int), self.arm(now as int))
                        } else {
                            (self.moved(Phase::Finished, 0), Action::Finish)
                        },
                    }
                } else {
                    (self.moved(Phase::Finished, 0), Action::Finish)
                },
                TimerEvent::Cancel => (self.moved(Phase::Finished, 0), Action::Finish),
            }
        }
    }

    /// The state after a sequence of events.
    pub open spec fn run(self, events: Seq<TimerEvent>) -> Timer
        decreases events.len(),
    {
        if events.len() == 0 {
            self
        } else {
            self.next(events[0]).0.run(events.drop_first())
        }
    }

    /// A new task, armed and not started.
    pub fn new(clock_type: ClockType, offset: i32) -> (r: Timer)
        requires
            clock_type.wf(),
            valid_offset(offset as int),
        ensures
            r.wf(),
            r.clock_type == clock_type,
            r.offset == offset,
            r.phase == Phase::Armed,
            r.fires@ == 0,
            r.due == MIN_UNIX,
    {
        Timer { clock_type, offset, phase: Phase::Armed, fires: Ghost(0), due: MIN_UNIX }
    }

    fn arm_exec(&mut self, now: i64) -> (a: Action)
        requires
            old(self).wf(),
            valid_instant(now as int),
        ensures
            a == old(self).arm(now as int),
            *final(self) == old(self).armed(now as int),
            final(self).wf(),
    {
        match self.clock_type {
            ClockType::Once(target) => if target <= now {
                Action::Finish
            } else {
                Action::Sleep((target - now) as u64)
            },
            ClockType::Period(p) => Action::Sleep(p),
            ClockType::OncePerDay(h, m) => {
                let base = if now < self.due {
                    self.due
                } else {
                    now
                };
                if base > MAX_UNIX {
                    Action::Finish
                } else {
                    let fire = next_daily_fire(base, self.offset, h, m);
                    self.due = fire;
                    Action::Sleep((fire - now) as u64)
                }
            },
        }
    }

    fn finish(&mut self) -> (a: Action)
        ensures
            *final(self) == old(self).moved(Phase::Finished, 0),
            a == Action::Finish,
    {
        self.phase = Phase::Finished;
        Action::Finish
    }

    /// Takes one event and returns the action it asks for.
    pub fn handle(&mut self, e: TimerEvent) -> (a: Action)
        requires
            old(self).wf(),
            match e {
                TimerEvent::Start(now) => valid_instant(now as int),
                TimerEvent::Notified(_, now) => valid_instant(now as int),
                _ => true,
            },
        ensures
            final(self).wf(),
            (*final(self), a) == old(self).next(e),
    {
        if self.phase == Phase::Finished {
            return Action::Finish;
        }
        match e {
            TimerEvent::Start(now) => {
                if self.phase == Phase::Armed {
                    let a = self.arm_exec(now);
                    if a == Action::Finish {
                        self.finish()
                    } else {
                        a
                    }
                } else {
                    self.finish()
                }
            },
            TimerEvent::Wake => {
                if self.phase == Phase::Armed {
                    self.phase = Phase::Firing;
                    self.fires = Ghost(self.fires@ + 1);
                    Action::Notify
                } else {
                    self.finish()
                }
            },
            TimerEvent::Notified(delivered, now) => {
                if self.phase == Phase::Firing {
                    match self.clock_type {
                        ClockType::Once(_) => self.finish(),
                        _ => {
                            if delivered {
                                self.phase = Phase::Armed;
                                self.arm_exec(now)
                            } else {
                                self.finish()
                            }
                        },
                    }
                } else {
                    self.finish()
                }
            },
            TimerEvent::Cancel => self.finish(),
        }
    }
}

/// A finished task stays as it is, whatever comes after.
pub proof fn lemma_finished_stays(t: Timer, events: Seq<TimerEvent>)
    requires
        t.phase == Phase::Finished,
    ensures
        t.run(events) == t,
    decreases events.len(),
{
    if events.len() > 0 {
        lemma_finished_stays(t.next(events[0]).0, events.drop_first());
    }
}

proof fn lemma_run_cons(t: Timer, e: TimerEvent, events: Seq<TimerEvent>)
    ensures
        t.run(seq![e] + events) == t.next(e).0.run(events),
{
    let all = seq![e] + events;
    assert(all.drop_first() =~= events);
    assert(all[0] == e);
}

/// The shape of a once-only task: no fire while armed, one fire once woken.
pub open spec fn once_shape(t: Timer) -> bool {
    (t.fires@ == 0 && t.phase != Phase::Firing) || (t.fires@ == 1 && t.phase != Phase::Armed)
}

proof fn lemma_once_shape_kept(t: Timer, events: Seq<TimerEvent>)
    requires
        t.clock_type is Once,
        once_shape(t),
    ensures
        once_shape(t.run(events)),
    decreases events.len(),
{
    if events.len() > 0 {
        lemma_once_shape_kept(t.next(events[0]).0, events.drop_first());
    }
}

/// A new task, as `Timer::new` makes it.
pub open spec fn fresh(clock_type: ClockType, offset: i32) -> Timer {
    Timer { clock_type, offset, phase: Phase::Armed, fires: Ghost(0), due: MIN_UNIX }
}

/// A once-only task notifies at most once, whatever the events.
pub proof fn lemma_once_at_most_one_fire(target: i64, offset: i32, events: Seq<TimerEvent>)
    ensures
        fresh(ClockType::Once(target), offset).run(events).fires@ <= 1,
{
    lemma_once_shape_kept(fresh(ClockType::Once(target), offset), events);
}

/// A once-only task whose instant lies ahead of the start sleeps until that
/// instant, then notifies exactly once and finishes: nothing that comes after
/// makes it notify again.
pub proof fn lemma_once_future_fires_once(
    target: i64,
    offset: i32,
    now: i64,
    delivered: bool,
    later: i64,
    events: Seq<TimerEvent>,
)
    requires
        now < target,
    ensures
        fresh(ClockType::Once(target), offset).next(TimerEvent::Start(now)).1 == Action::Sleep(
            (target - now) as u64,
        ),
        fresh(ClockType::Once(target), offset).run(seq![TimerEvent::Start(now)]).next(
            TimerEvent::Wake,
        ).1 == Action::Notify,
        fresh(ClockType::Once(target), offset).run(
            seq![TimerEvent::Start(now), TimerEvent::Wake, TimerEvent::Notified(delivered, later)]
                + events,
        ).fires@ == 1,
        fresh(ClockType::Once(target), offset).run(
            seq![TimerEvent::Start(now), TimerEvent::Wake, TimerEvent::Notified(delivered, later)]
                + events,
        ).phase == Phase::Finished,
{
    let t0 = fresh(ClockType::Once(target), offset);
    let t1 = t0.next(TimerEvent::Start(now)).0;
    let t2 = t1.next(TimerEvent::Wake).0;
    let t3 = t2.next(TimerEvent::Notified(delivered, later)).0;
    lemma_run_cons(t0, TimerEvent::Start(now), Seq::empty());
    assert(seq![TimerEvent::Start(now)] + Seq::<TimerEvent>::empty() =~= seq![TimerEvent::Start(now)]);
    let rest2 = seq![TimerEvent::Notified(delivered, later)] + events;
    let rest1 = seq![TimerEvent::Wake] + rest2;
    assert(seq![TimerEvent::Start(now), TimerEvent::Wake, TimerEvent::Notified(delivered, later)]
        + events =~= seq![TimerEvent::Start(now)] + rest1);
    lemma_run_cons(t0, TimerEvent::Start(now), rest1);
    lemma_run_cons(t1, TimerEvent::Wake, rest2);
    lemma_run_cons(t2, TimerEvent::Notified(delivered, later), events);
    lemma_finished_stays(t3, events);
}

/// A once-only task whose instant is not ahead of the start finishes at once
/// and never notifies.
pub proof fn lemma_once_past_never_fires(target: i64, offset: i32, now: i64, events: Seq<TimerEvent>)
    requires
        target <= now,
    ensures
        fresh(ClockType::Once(target), offset).next(TimerEvent::Start(now)).1 == Action::Finish,
        fresh(ClockType::Once(target), offset).run(seq![TimerEvent::Start(now)] + events).fires@
            == 0,
{
    let t0 = fresh(ClockType::Once(target), offset);
    let all = seq![TimerEvent::Start(now)] + events;
    assert(all.drop_first() =~= events);
    lemma_finished_stays(t0.next(TimerEvent::Start(now)).0, events);
}

/// A task cancelled before it has fired never notifies, whatever its rule
/// and whatever comes after; one cancelled later notifies no more.
pub proof fn lemma_cancel_stops_fires(t: Timer, events: Seq<TimerEvent>)
    ensures
        t.run(seq![TimerEvent::Cancel] + events).fires@ == t.fires@,
        t.fires@ == 0 ==> t.run(seq![TimerEvent::Cancel] + events).fires@ == 0,
{
    let all = seq![TimerEvent::Cancel] + events;
    assert(all.drop_first() =~= events);
    lemma_finished_stays(t.next(TimerEvent::Cancel).0, events);
}

/// One wake and one delivered notification for each instant in `nows`.
pub open spec fn delivered_cycles(nows: Seq<i64>) -> Seq<TimerEvent>
    decreases nows.len(),
{
    if nows.len() == 0 {
        Seq::empty()
    } else {
        seq![TimerEvent::Wake, TimerEvent::Notified(true, nows[0])] + delivered_cycles(
            nows.drop_first(),
        )
    }
}

/// A periodic task notifies once on each wake, and after each delivered
/// notification sleeps its period again: after `k` periods it has notified
/// `k` times more and is armed again.
pub proof fn lemma_period_fires_each_period(t: Timer, nows: Seq<i64>)
    requires
        t.clock_type is Period,
        t.phase == Phase::Armed,
    ensures
        t.run(delivered_cycles(nows)).fires@ == t.fires@ + nows.len(),
        t.run(delivered_cycles(nows)).phase == Phase::Armed,
        t.next(TimerEvent::Wake).1 == Action::Notify,
        t.next(TimerEvent::Wake).0.next(TimerEvent::Notified(true, 0)).1 == Action::Sleep(
            t.clock_type->Period_0,
        ),
    decreases nows.len(),
{
    if nows.len() > 0 {
        let rest = delivered_cycles(nows.drop_first());
        let n = TimerEvent::Notified(true, nows[0]);
        assert(delivered_cycles(nows) =~= seq![TimerEvent::Wake] + (seq![n] + rest));
        let t1 = t.next(TimerEvent::Wake).0;
        let t2 = t1.next(n).0;
        lemma_run_cons(t, TimerEvent::Wake, seq![n] + rest);
        lemma_run_cons(t1, n, rest);
        lemma_period_fires_each_period(t2, nows.drop_first());
    } else {
        assert(delivered_cycles(nows) =~= Seq::<TimerEvent>::empty());
    }
}

/// A recurring task whose notification fails finishes and never notifies
/// again, with no cancellation.
pub proof fn lemma_failed_notification_ends_task(t: Timer, now: i64, events: Seq<TimerEvent>)
    requires
        t.phase == Phase::Firing,
    ensures
        t.next(TimerEvent::Notified(false, now)).1 == Action::Finish,
        t.run(seq![TimerEvent::Notified(false, now)] + events).fires@ == t.fires@,
{
    let all = seq![TimerEvent::Notified(false, now)] + events;
    assert(all.drop_first() =~= events);
    lemma_finished_stays(t.next(TimerEvent::Notified(false, now)).0, events);
}

/// Whether instant `t` is a target of daily rule `t`: it shows the rule's
/// wall-clock minute.
pub open spec fn on_daily_minute(t: Timer, at: int) -> bool {
    local_second_of_day(at, t.offset as int) == second_of_hour_minute(
        t.clock_type->OncePerDay_0 as int,
        t.clock_type->OncePerDay_1 as int,
    )
}

/// A daily task sleeps exactly up to its next target, which shows its
/// wall-clock minute; each new target falls on a later local day than the
/// one before, whatever instant the event reports. So it fires at most once
/// on each calendar day.
pub proof fn lemma_daily_once_per_day(t: Timer, e: TimerEvent)
    requires
        t.wf(),
        t.clock_type is OncePerDay,
        t.due == MIN_UNIX || on_daily_minute(t, t.due as int),
    ensures
        ({
            let (t2, a) = t.next(e);
            &&& t2.due == MIN_UNIX || on_daily_minute(t2, t2.due as int)
            &&& t2.due != t.due ==> {
                &&& t.due < t2.due
                &&& t.due != MIN_UNIX ==> local_day(t.due as int, t.offset as int) < local_day(
                    t2.due as int,
                    t.offset as int,
                )
                &&& match e {
                    TimerEvent::Start(now) => a == Action::Sleep((t2.due - now) as u64),
                    TimerEvent::Notified(_, now) => a == Action::Sleep((t2.due - now) as u64),
                    _ => false,
                }
            }
        }),
{
    let h = t.clock_type->OncePerDay_0 as int;
    let m = t.clock_type->OncePerDay_1 as int;
    let o = t.offset as int;
    match e {
        TimerEvent::Start(now) => {
            lemma_next_daily(t.arm_base(now as int), o, h, m);
            if t.due != MIN_UNIX && t.arm_base(now as int) <= MAX_UNIX {
                lemma_same_time_of_day_later_day(
                    t.due as int,
                    next_daily(t.arm_base(now as int), o, h, m),
                    o,
                );
            }
        },
        TimerEvent::Notified(_, now) => {
            lemma_next_daily(t.arm_base(now as int), o, h, m);
            if t.due != MIN_UNIX && t.arm_base(now as int) <= MAX_UNIX {
                lemma_same_time_of_day_later_day(
                    t.due as int,
                    next_daily(t.arm_base(now as int), o, h, m),
                    o,
                );
            }
        },
        _ => {},
    }
}

} // verus!
