use task_reminder::scheduler::{
    is_canceled, Dispatch, InnerScheduler, Scheduler, SchedulerCommand, SchedulerUnavailable,
    TaskCommand,
};
use task_reminder::task::{ClockType, Task};
use task_reminder::timer::{Action, Phase, TimerEvent};
use tokio::sync::broadcast::error::{RecvError, TryRecvError};

const NOW: i64 = 1704110437;

#[test]
fn stop_and_channel_errors_cancel() {
    assert!(is_canceled(Ok(TaskCommand::Stop)));
    assert!(is_canceled(Err(RecvError::Closed)));
    assert!(is_canceled(Err(RecvError::Lagged(3))));
}

#[test]
fn new_task_has_fresh_id() {
    let a = Task::new("test".to_string(), ClockType::Period(5));
    let b = Task::new("test".to_string(), ClockType::Period(5));
    assert_eq!(a.task_id.chars().count(), 21);
    assert_ne!(a.task_id, b.task_id);
    assert_eq!(a.description, "test");
    assert_eq!(a.clock_type, ClockType::Period(5));
    assert!(a.created_at > 1704067200);
}

#[test]
fn media_is_attached() {
    let a = Task::new("x".to_string(), ClockType::Period(5))
        .with_media(Some("i.png".to_string()), None);
    assert_eq!(a.image_path.as_deref(), Some("i.png"));
    assert_eq!(a.sound_path, None);
}

#[test]
fn cancel_one_of_two_tasks() {
    let mut inner = InnerScheduler::new(0);
    let a = Task::new("a".to_string(), ClockType::Once(NOW + 2));
    let b = Task::new("b".to_string(), ClockType::Once(NOW + 3));
    let (mut ta, mut ra) = inner.add_task(&a);
    let (_tb, mut rb) = inner.add_task(&b);
    assert!(inner.is_live(&a.task_id));
    assert!(inner.is_live(&b.task_id));
    assert_eq!(inner.cancel_task(b.clone()), Ok(()));
    assert!(inner.is_live(&a.task_id));
    assert!(!inner.is_live(&b.task_id));
    assert_eq!(rb.try_recv(), Ok(TaskCommand::Stop));
    assert_eq!(ra.try_recv(), Err(TryRecvError::Empty));
    assert_eq!(ta.handle(TimerEvent::Start(NOW)), Action::Sleep(2));
    assert_eq!(ta.handle(TimerEvent::Wake), Action::Notify);
}

#[test]
fn cancel_unknown_task_is_no_error() {
    let mut inner = InnerScheduler::new(0);
    let a = Task::new("a".to_string(), ClockType::Period(1));
    assert_eq!(inner.cancel_task(a.clone()), Ok(()));
    assert!(!inner.is_live(&a.task_id));
}

#[test]
fn cancel_after_task_ended_reports_no_receiver() {
    let mut inner = InnerScheduler::new(0);
    let a = Task::new("a".to_string(), ClockType::Once(NOW + 1));
    let (_t, r) = inner.add_task(&a);
    drop(r);
    assert!(inner.cancel_task(a.clone()).is_err());
    assert!(!inner.is_live(&a.task_id));
}

#[test]
fn dispatch_add_then_cancel() {
    let mut inner = InnerScheduler::new(3600);
    let a = Task::new("a".to_string(), ClockType::OncePerDay(7, 0));
    let id = a.task_id.clone();
    let mut rx = match inner.dispatch(SchedulerCommand::Add(a.clone())) {
        Dispatch::Spawn(t, timer, rx) => {
            assert_eq!(t.task_id, id);
            assert_eq!(timer.offset, 3600);
            assert_eq!(timer.phase, Phase::Armed);
            rx
        }
        Dispatch::Cancelled(_) => panic!("an add must spawn"),
    };
    assert!(inner.is_live(&id));
    match inner.dispatch(SchedulerCommand::Cancel(a)) {
        Dispatch::Cancelled(r) => assert!(r.is_ok()),
        Dispatch::Spawn(..) => panic!("a cancel must not spawn"),
    }
    assert!(!inner.is_live(&id));
    assert_eq!(rx.try_recv(), Ok(TaskCommand::Stop));
}

#[test]
fn facade_posts_while_loop_lives() {
    let (mut s, mut rx) = Scheduler::with_mailbox();
    let a = Task::new("a".to_string(), ClockType::Period(1));
    assert_eq!(s.add_task(a.clone()), Ok(()));
    assert_eq!(s.cancel_task(a.clone()), Ok(()));
    assert!(!s.terminated());
    assert!(matches!(rx.try_recv(), Ok(SchedulerCommand::Add(_))));
    assert!(matches!(rx.try_recv(), Ok(SchedulerCommand::Cancel(_))));
}

#[test]
fn facade_unavailable_after_loop_ends() {
    let (mut s, rx) = Scheduler::with_mailbox();
    drop(rx);
    let a = Task::new("a".to_string(), ClockType::Period(1));
    assert_eq!(s.add_task(a.clone()), Err(SchedulerUnavailable));
    assert!(s.terminated());
    assert_eq!(s.cancel_task(a.clone()), Err(SchedulerUnavailable));
    assert_eq!(s.add_task(a), Err(SchedulerUnavailable));
}

#[test]
fn once_task_notifies_with_its_description() {
    let mut inner = InnerScheduler::new(0);
    let task = Task::new("test".to_string(), ClockType::Once(NOW + 2));
    let mut bodies = Vec::new();
    match inner.dispatch(SchedulerCommand::Add(task)) {
        Dispatch::Spawn(task, mut timer, _signal) => {
            let mut action = timer.handle(TimerEvent::Start(NOW));
            let mut now = NOW;
            while now <= NOW + 3 {
                action = match action {
                    Action::Sleep(secs) => {
                        now += secs as i64;
                        timer.handle(TimerEvent::Wake)
                    }
                    Action::Notify => {
                        bodies.push(task.description.clone());
                        timer.handle(TimerEvent::Notified(true, now))
                    }
                    Action::Finish => break,
                };
            }
        }
        Dispatch::Cancelled(_) => panic!("an add must spawn"),
    }
    assert_eq!(bodies, vec!["test".to_string()]);
}

#[test]
fn invalid_rules_are_recognised() {
    assert!(!ClockType::Period(0).is_valid());
    assert!(!ClockType::OncePerDay(24, 0).is_valid());
    assert!(!ClockType::OncePerDay(23, 60).is_valid());
    assert!(ClockType::OncePerDay(23, 59).is_valid());
    assert!(ClockType::Once(NOW).is_valid());
    assert!(!ClockType::Once(i64::MAX).is_valid());
}
