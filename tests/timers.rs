use task_reminder::clock::{local_hour_minute, next_daily_fire};
use task_reminder::task::ClockType;
use task_reminder::timer::{Action, Phase, Timer, TimerEvent};

const NOW: i64 = 1704110437;

/// Drives a timer as a runner would, with a clock that each sleep advances
/// exactly, and a notifier whose outcome for each call comes from `outcomes`
/// (delivered once they run out). Stops after `wakes` wakes or when the timer
/// finishes; returns the number of notifications and the instants at which
/// they came.
fn drive(timer: &mut Timer, start: i64, wakes: usize, outcomes: &[bool]) -> (usize, Vec<i64>) {
    let mut now = start;
    let mut calls = Vec::new();
    let mut action = timer.handle(TimerEvent::Start(now));
    let mut woken = 0;
    loop {
        match action {
            Action::Sleep(secs) => {
                if woken == wakes {
                    break;
                }
                woken += 1;
                now += secs as i64;
                action = timer.handle(TimerEvent::Wake);
            }
            Action::Notify => {
                let ok = outcomes.get(calls.len()).copied().unwrap_or(true);
                calls.push(now);
                action = timer.handle(TimerEvent::Notified(ok, now));
            }
            Action::Finish => break,
        }
    }
    (calls.len(), calls)
}

#[test]
fn once_in_future_fires_once_at_its_instant() {
    let mut t = Timer::new(ClockType::Once(NOW + 2), 0);
    assert_eq!(t.handle(TimerEvent::Start(NOW)), Action::Sleep(2));
    assert_eq!(t.handle(TimerEvent::Wake), Action::Notify);
    assert_eq!(t.handle(TimerEvent::Notified(true, NOW + 2)), Action::Finish);
    assert_eq!(t.phase, Phase::Finished);
    assert_eq!(t.handle(TimerEvent::Wake), Action::Finish);
    assert_eq!(t.handle(TimerEvent::Start(NOW + 3)), Action::Finish);
}

#[test]
fn once_in_future_driven() {
    let mut t = Timer::new(ClockType::Once(NOW + 2), 0);
    assert_eq!(drive(&mut t, NOW, 10, &[]), (1, vec![NOW + 2]));
}

#[test]
fn once_failed_delivery_still_ends() {
    let mut t = Timer::new(ClockType::Once(NOW + 2), 0);
    assert_eq!(drive(&mut t, NOW, 10, &[false]), (1, vec![NOW + 2]));
}

#[test]
fn once_in_past_never_fires() {
    let mut t = Timer::new(ClockType::Once(NOW - 5), 0);
    assert_eq!(t.handle(TimerEvent::Start(NOW)), Action::Finish);
    assert_eq!(t.handle(TimerEvent::Wake), Action::Finish);
    let mut t = Timer::new(ClockType::Once(NOW), 0);
    assert_eq!(drive(&mut t, NOW, 10, &[]).0, 0);
}

#[test]
fn cancel_before_fire_for_each_rule() {
    for rule in [ClockType::Once(NOW + 60), ClockType::Period(1), ClockType::OncePerDay(9, 30)] {
        let mut t = Timer::new(rule, 0);
        assert!(matches!(t.handle(TimerEvent::Start(NOW)), Action::Sleep(_)));
        assert_eq!(t.handle(TimerEvent::Cancel), Action::Finish);
        assert_eq!(t.handle(TimerEvent::Wake), Action::Finish);
        assert_eq!(t.phase, Phase::Finished);
    }
}

#[test]
fn period_three_fires_then_cancel() {
    let mut t = Timer::new(ClockType::Period(1), 0);
    assert_eq!(drive(&mut t, NOW, 3, &[]), (3, vec![NOW + 1, NOW + 2, NOW + 3]));
    assert_eq!(t.phase, Phase::Armed);
    assert_eq!(t.handle(TimerEvent::Cancel), Action::Finish);
    assert_eq!(t.handle(TimerEvent::Wake), Action::Finish);
    assert_eq!(t.handle(TimerEvent::Wake), Action::Finish);
}

#[test]
fn period_sleeps_its_period_after_each_fire() {
    let mut t = Timer::new(ClockType::Period(45), 0);
    assert_eq!(t.handle(TimerEvent::Start(NOW)), Action::Sleep(45));
    assert_eq!(t.handle(TimerEvent::Wake), Action::Notify);
    assert_eq!(t.handle(TimerEvent::Notified(true, NOW + 45)), Action::Sleep(45));
}

#[test]
fn period_stops_after_failed_notification() {
    let mut t = Timer::new(ClockType::Period(1), 0);
    assert_eq!(drive(&mut t, NOW, 5, &[true, false]), (2, vec![NOW + 1, NOW + 2]));
    assert_eq!(t.phase, Phase::Finished);
}

#[test]
fn daily_fires_once_in_its_minute() {
    // local clock at UTC+1 reads 13:00:37; aim at the next minute
    let (h, m) = local_hour_minute(NOW, 3600);
    assert_eq!((h, m), (13, 0));
    let mut t = Timer::new(ClockType::OncePerDay(h, m + 1), 3600);
    assert_eq!(t.handle(TimerEvent::Start(NOW)), Action::Sleep(23));
    assert_eq!(t.handle(TimerEvent::Wake), Action::Notify);
    // reported one second into the matching minute: re-armed for tomorrow
    let next = t.handle(TimerEvent::Notified(true, NOW + 24));
    assert_eq!(next, Action::Sleep(86400 - 1));
}

#[test]
fn daily_driven_one_fire_per_day() {
    let mut t = Timer::new(ClockType::OncePerDay(8, 15), 0);
    let (n, at) = drive(&mut t, NOW, 3, &[]);
    assert_eq!(n, 3);
    for w in at.windows(2) {
        assert_eq!(w[1] - w[0], 86400);
    }
    for i in at {
        assert_eq!(local_hour_minute(i, 0), (8, 15));
    }
}

#[test]
fn daily_failed_notification_stops() {
    let mut t = Timer::new(ClockType::OncePerDay(8, 15), 0);
    assert_eq!(drive(&mut t, NOW, 5, &[false]).0, 1);
}

#[test]
fn daily_fire_matches_next_daily_fire() {
    let mut t = Timer::new(ClockType::OncePerDay(23, 59), -7200);
    let fire = next_daily_fire(NOW, -7200, 23, 59);
    assert_eq!(t.handle(TimerEvent::Start(NOW)), Action::Sleep((fire - NOW) as u64));
}

#[test]
fn out_of_order_event_ends_task() {
    let mut t = Timer::new(ClockType::Period(1), 0);
    assert_eq!(t.handle(TimerEvent::Notified(true, NOW)), Action::Finish);
    assert_eq!(t.phase, Phase::Finished);
}

#[test]
fn daily_early_report_does_not_refire_same_day() {
    let mut t = Timer::new(ClockType::OncePerDay(13, 1), 3600);
    assert_eq!(t.handle(TimerEvent::Start(NOW)), Action::Sleep(23));
    assert_eq!(t.due, NOW + 23);
    assert_eq!(t.handle(TimerEvent::Wake), Action::Notify);
    // the clock reports an instant before the target it just fired for
    assert_eq!(t.handle(TimerEvent::Notified(true, NOW + 10)), Action::Sleep(86400 + 13));
    assert_eq!(t.due, NOW + 23 + 86400);
}
