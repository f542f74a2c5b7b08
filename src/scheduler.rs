//! The scheduling engine: a facade that posts commands into a bounded
//! mailbox, and the decisions of the coordinating loop that reads it, which
//! registers each task's cancellation signal and starts its timer.
use crate::clock::valid_offset;
use crate::registry::Registry;
use crate::task::Task;
use crate::timer::{fresh, Timer};
use tokio::sync::broadcast;
use tokio::sync::mpsc;
use vstd::prelude::*;

verus! {

#[verifier::external_type_specification]
#[verifier::external_body]
#[verifier::reject_recursive_types(T)]
pub struct ExMailboxSender<T>(mpsc::Sender<T>);

#[verifier::external_type_specification]
#[verifier::external_body]
#[verifier::reject_recursive_types(T)]
pub struct ExMailboxReceiver<T>(mpsc::Receiver<T>);

#[verifier::external_type_specification]
#[verifier::external_body]
#[verifier::reject_recursive_types(T)]
pub struct ExSignalSender<T>(broadcast::Sender<T>);

#[verifier::external_type_specification]
#[verifier::external_body]
#[verifier::reject_recursive_types(T)]
pub struct ExSignalReceiver<T>(broadcast::Receiver<T>);

#[verifier::external_type_specification]
#[verifier::external_body]
pub struct ExRecvError(broadcast::error::RecvError);

/// How many commands the mailbox holds before a caller has to wait.
pub const MAILBOX_CAPACITY: usize = 8;

/// The message that stops a task.
#[derive(Clone, Copy, Debug, PartialEq, Eq, Structural)]
pub enum TaskCommand {
    Stop,
}

/// A command from the facade to the coordinating loop.
#[derive(Debug)]
pub enum SchedulerCommand {
    Add(Task),
    Cancel(Task),
}

/// The coordinating loop has ended: the scheduler takes no more commands.
#[derive(Clone, Copy, Debug, PartialEq, Eq, Structural)]
pub struct SchedulerUnavailable;

/// Why a cancellation could not be delivered.
#[derive(Clone, Copy, Debug, PartialEq, Eq, Structural)]
pub enum CancelError {
    /// The task had no one left listening: it had already ended on its own.
    NoReceiver,
}

/// How many commands a signal channel for one task holds.
pub const SIGNAL_CAPACITY: usize = 1;

/// The number of commands that a mailbox was made to hold.
pub uninterp spec fn mailbox_bound(sender: mpsc::Sender<SchedulerCommand>) -> nat;

/// The sender whose channel a signal receiver listens on.
pub uninterp spec fn signal_source(
    receiver: broadcast::Receiver<TaskCommand>,
) -> broadcast::Sender<TaskCommand>;

/// Relies on tokio's `mpsc::channel`: a mailbox bounded to `capacity`
/// commands. It panics on a capacity of zero or above the semaphore's
/// `MAX_PERMITS` (`usize::MAX >> 3`).
#[verifier::external_body]
fn mailbox(capacity: usize) -> (r: (mpsc::Sender<SchedulerCommand>, mpsc::Receiver<SchedulerCommand>))
    requires
        0 < capacity <= usize::MAX / 8,
    ensures
        mailbox_bound(r.0) == capacity,
{
    mpsc::channel(capacity)
}

/// Relies on tokio's `mpsc::Sender::is_closed`: whether the receiving end has
/// been dropped or closed.
#[verifier::external_body]
fn mailbox_closed(sender: &mpsc::Sender<SchedulerCommand>) -> (r: bool) {
    sender.is_closed()
}

/// Relies on tokio's `broadcast::channel`: a signal channel with room for
/// `capacity` messages, whose receiver listens on the sender returned with
/// it. It panics on a capacity of zero or above `usize::MAX / 2`.
#[verifier::external_body]
fn signal_channel(capacity: usize) -> (r: (broadcast::Sender<TaskCommand>, broadcast::Receiver<TaskCommand>))
    requires
        0 < capacity <= usize::MAX / 2,
    ensures
        signal_source(r.1) == r.0,
{
    broadcast::channel(capacity)
}

/// Whether what a task's signal channel gave it means that the task must
/// stop: a stop message, or the channel closing or overflowing, all do.
pub fn is_canceled(val: Result<TaskCommand, broadcast::error::RecvError>) -> (r: bool)
    ensures
        r == (val is Err || val->Ok_0 == TaskCommand::Stop),
{
    match val {
        Ok(command) => match command {
            TaskCommand::Stop => true,
        },
        Err(_) => true,
    }
}

/// The caller's side of the scheduler. Once it has seen the coordinating
/// loop gone, it stays unavailable.
pub struct Scheduler {
    task_sender: mpsc::Sender<SchedulerCommand>,
    terminated: bool,
    /// The commands posted into the mailbox, in order.
    posted: Ghost<Seq<SchedulerCommand>>,
}

impl Scheduler {
    /// The commands posted into the mailbox so far, in order.
    pub closed spec fn posted(&self) -> Seq<SchedulerCommand> {
        self.posted@
    }

    /// The number of commands the mailbox holds before a caller waits.
    pub closed spec fn capacity(&self) -> nat {
        mailbox_bound(self.task_sender)
    }

    /// Relies on tokio's `mpsc::Sender::blocking_send`: waits for room, then
    /// puts the command into the mailbox and gives `true`; gives `false`,
    /// with nothing put, where the receiving end is gone. It panics when
    /// called from inside an asynchronous runtime, which the facade's
    /// callers are not.
    #[verifier::external_body]
    fn post(&mut self, command: SchedulerCommand) -> (r: bool)
        ensures
            final(self).task_sender == old(self).task_sender,
            final(self).terminated == old(self).terminated,
            r ==> final(self).posted@ == old(self).posted@.push(command),
            !r ==> final(self).posted@ == old(self).posted@,
    {
        self.task_sender.blocking_send(command).is_ok()
    }

    /// Whether the facade has seen the coordinating loop gone.
    pub closed spec fn is_terminated(&self) -> bool {
        self.terminated
    }

    /// A facade, and the receiving end of its mailbox, from which the
    /// coordinating loop is to read.
    pub fn with_mailbox() -> (r: (Scheduler, mpsc::Receiver<SchedulerCommand>))
        ensures
            !r.0.is_terminated(),
            r.0.capacity() == MAILBOX_CAPACITY,
            r.0.posted() == Seq::<SchedulerCommand>::empty(),
    {
        let (task_sender, receiver) = mailbox(MAILBOX_CAPACITY);
        (Scheduler { task_sender, terminated: false, posted: Ghost(Seq::empty()) }, receiver)
    }

    /// Whether the facade has seen the coordinating loop gone.
    pub fn terminated(&self) -> (r: bool)
        ensures
            r == self.is_terminated(),
    {
        self.terminated
    }

    fn submit(&mut self, command: SchedulerCommand) -> (r: Result<(), SchedulerUnavailable>)
        ensures
            old(self).is_terminated() ==> r is Err,
            r is Err <==> final(self).is_terminated(),
            r is Ok ==> final(self).posted() == old(self).posted().push(command),
            r is Err ==> final(self).posted() == old(self).posted(),
            final(self).capacity() == old(self).capacity(),
    {
        if self.terminated || mailbox_closed(&self.task_sender) {
            self.terminated = true;
            return Err(SchedulerUnavailable);
        }
        if self.post(command) {
            Ok(())
        } else {
            self.terminated = true;
            Err(SchedulerUnavailable)
        }
    }

    /// Posts a task to be scheduled. Waits only for room in the mailbox, not
    /// for the loop to act. Fails, now and on every later call, once the
    /// loop is gone.
    pub fn add_task(&mut self, task: Task) -> (r: Result<(), SchedulerUnavailable>)
        ensures
            old(self).is_terminated() ==> r is Err,
            r is Err <==> final(self).is_terminated(),
            r is Ok ==> final(self).posted() == old(self).posted().push(SchedulerCommand::Add(task)),
            r is Err ==> final(self).posted() == old(self).posted(),
            final(self).capacity() == old(self).capacity(),
    {
        self.submit(SchedulerCommand::Add(task))
    }

    /// Posts the cancellation of a task. Waits only for room in the mailbox.
    /// Fails, now and on every later call, once the loop is gone.
    pub fn cancel_task(&mut self, task: Task) -> (r: Result<(), SchedulerUnavailable>)
        ensures
            old(self).is_terminated() ==> r is Err,
            r is Err <==> final(self).is_terminated(),
            r is Ok ==> final(self).posted() == old(self).posted().push(
                SchedulerCommand::Cancel(task),
            ),
            r is Err ==> final(self).posted() == old(self).posted(),
            final(self).capacity() == old(self).capacity(),
    {
        self.submit(SchedulerCommand::Cancel(task))
    }
}

/// What the coordinating loop is to do after a command.
pub enum Dispatch {
    /// Start the task, driven by its timer, listening for its stop signal.
    Spawn(Task, Timer, broadcast::Receiver<TaskCommand>),
    /// A cancellation was handled, with this outcome.
    Cancelled(Result<(), CancelError>),
}

/// The state of the coordinating loop: the registry of live tasks and the
/// UTC offset under which daily rules are read.
pub struct InnerScheduler {
    cancel_channels: Registry<broadcast::Sender<TaskCommand>>,
    tzdiff: i32,
    /// The senders on which a stop was offered, in order.
    stops: Ghost<Seq<broadcast::Sender<TaskCommand>>>,
}

impl InnerScheduler {
    pub closed spec fn wf(&self) -> bool {
        self.cancel_channels.wf() && valid_offset(self.tzdiff as int)
    }

    /// The registry: for each live task, the sender of its stop signal.
    pub closed spec fn channels(&self) -> Map<Seq<char>, broadcast::Sender<TaskCommand>> {
        self.cancel_channels@
    }

    /// The identifiers that have a registry entry.
    pub open spec fn live(&self) -> Set<Seq<char>> {
        self.channels().dom()
    }

    /// The senders on which a stop was offered so far, in order.
    pub closed spec fn stops(&self) -> Seq<broadcast::Sender<TaskCommand>> {
        self.stops@
    }

    pub closed spec fn offset(&self) -> i32 {
        self.tzdiff
    }

    /// Relies on tokio's `broadcast::Sender::send`: offers the stop to the
    /// channel, and gives `false` where the channel has no receiver left.
    #[verifier::external_body]
    fn signal(&mut self, sender: &broadcast::Sender<TaskCommand>) -> (r: bool)
        ensures
            final(self).cancel_channels == old(self).cancel_channels,
            final(self).tzdiff == old(self).tzdiff,
            final(self).stops@ == old(self).stops@.push(*sender),
    {
        sender.send(TaskCommand::Stop).is_ok()
    }

    pub fn new(tzdiff: i32) -> (r: InnerScheduler)
        requires
            valid_offset(tzdiff as int),
        ensures
            r.wf(),
            r.channels() == Map::<Seq<char>, broadcast::Sender<TaskCommand>>::empty(),
            r.stops() == Seq::<broadcast::Sender<TaskCommand>>::empty(),
            r.offset() == tzdiff,
    {
        InnerScheduler { cancel_channels: Registry::new(), tzdiff, stops: Ghost(Seq::empty()) }
    }

    /// Whether `task_id` has a registry entry.
    pub fn is_live(&self, task_id: &String) -> (r: bool)
        requires
            self.wf(),
        ensures
            r == self.live().contains(task_id@),
    {
        self.cancel_channels.contains(task_id)
    }

    /// Registers a new task under its identifier, with a fresh cancellation
    /// signal, and gives back the timer to run for it and the receiving end
    /// of that signal. The entry stays until the task is cancelled.
    pub fn add_task(&mut self, task: &Task) -> (r: (Timer, broadcast::Receiver<TaskCommand>))
        requires
            old(self).wf(),
            task.clock_type.wf(),
        ensures
            final(self).wf(),
            final(self).channels() == old(self).channels().insert(task.task_id@, signal_source(r.1)),
            final(self).stops() == old(self).stops(),
            final(self).offset() == old(self).offset(),
            r.0 == fresh(task.clock_type, old(self).offset()),
            r.0.wf(),
    {
        let (sender, receiver) = signal_channel(SIGNAL_CAPACITY);
        self.cancel_channels.insert(task.task_id.clone(), sender);
        (Timer::new(task.clock_type, self.tzdiff), receiver)
    }

    /// Cancels a task by its identifier: takes out its entry and offers the
    /// stop on its sender. An unknown identifier is no error. Where the task
    /// had already ended on its own, the stop finds no receiver.
    pub fn cancel_task(&mut self, task: Task) -> (r: Result<(), CancelError>)
        requires
            old(self).wf(),
        ensures
            final(self).wf(),
            final(self).channels() == old(self).channels().remove(task.task_id@),
            final(self).offset() == old(self).offset(),
            old(self).live().contains(task.task_id@) ==> final(self).stops() == old(
                self,
            ).stops().push(old(self).channels()[task.task_id@]),
            !old(self).live().contains(task.task_id@) ==> r is Ok && final(self).stops() == old(
                self,
            ).stops(),
    {
        let removed = self.cancel_channels.remove(&task.task_id);
        match removed {
            Some(sender) => if self.signal(&sender) {
                Ok(())
            } else {
                Err(CancelError::NoReceiver)
            },
            None => Ok(()),
        }
    }

    /// Handles one command from the mailbox.
    pub fn dispatch(&mut self, command: SchedulerCommand) -> (r: Dispatch)
        requires
            old(self).wf(),
            command matches SchedulerCommand::Add(t) ==> t.clock_type.wf(),
        ensures
            final(self).wf(),
            final(self).offset() == old(self).offset(),
            match command {
                SchedulerCommand::Add(t) => {
                    &&& r matches Dispatch::Spawn(t2, timer, rx) && t2 == t && timer == fresh(
                        t.clock_type,
                        old(self).offset(),
                    ) && final(self).channels() == old(self).channels().insert(
                        t.task_id@,
                        signal_source(rx),
                    )
                    &&& final(self).stops() == old(self).stops()
                },
                SchedulerCommand::Cancel(t) => {
                    &&& final(self).channels() == old(self).channels().remove(t.task_id@)
                    &&& r matches Dispatch::Cancelled(res)
                    &&& (old(self).live().contains(t.task_id@) ==> (final(self).stops()
                        == old(self).stops().push(old(self).channels()[t.task_id@])))
                    &&& (!old(self).live().contains(t.task_id@) ==> (res is Ok && final(self).stops()
                        == old(self).stops()))
                },
            },
    {
        match command {
            SchedulerCommand::Add(task) => {
                let (timer, receiver) = self.add_task(&task);
                Dispatch::Spawn(task, timer, receiver)
            },
            SchedulerCommand::Cancel(task) => Dispatch::Cancelled(self.cancel_task(task)),
        }
    }
}

/// The registry after registering `ids[i]` with `senders[i]`, in order.
pub open spec fn register_all<S>(m: Map<Seq<char>, S>, ids: Seq<Seq<char>>, senders: Seq<S>) -> Map<
    Seq<char>,
    S,
>
    decreases ids.len(),
{
    if ids.len() == 0 || senders.len() != ids.len() {
        m
    } else {
        register_all(m, ids.drop_last(), senders.drop_last()).insert(ids.last(), senders.last())
    }
}

/// Registering tasks with distinct identifiers, one after another, gives
/// each its own entry with its own sender.
pub proof fn lemma_register_all<S>(m: Map<Seq<char>, S>, ids: Seq<Seq<char>>, senders: Seq<S>)
    requires
        ids.no_duplicates(),
        ids.len() == senders.len(),
    ensures
        forall|j: int|
            0 <= j < ids.len() ==> register_all(m, ids, senders).contains_key(#[trigger] ids[j])
                && register_all(m, ids, senders)[ids[j]] == senders[j],
    decreases ids.len(),
{
    if ids.len() > 0 {
        let ids0 = ids.drop_last();
        let s0 = senders.drop_last();
        assert(ids0.no_duplicates());
        lemma_register_all(m, ids0, s0);
        assert forall|j: int| 0 <= j < ids.len() implies register_all(m, ids, senders).contains_key(
            #[trigger] ids[j],
        ) && register_all(m, ids, senders)[ids[j]] == senders[j] by {
            if j < ids.len() - 1 {
                assert(ids0[j] == ids[j]);
                assert(ids[j] != ids.last());
            }
        }
    }
}

/// Of tasks registered with distinct identifiers, cancelling one by its
/// identifier takes out that entry alone: every other task keeps its entry
/// and its sender.
pub proof fn lemma_cancel_affects_only_that_task<S>(
    m: Map<Seq<char>, S>,
    ids: Seq<Seq<char>>,
    senders: Seq<S>,
    k: int,
)
    requires
        ids.no_duplicates(),
        ids.len() == senders.len(),
        0 <= k < ids.len(),
    ensures
        !register_all(m, ids, senders).remove(ids[k]).contains_key(ids[k]),
        forall|j: int|
            0 <= j < ids.len() && j != k ==> register_all(m, ids, senders).remove(
                ids[k],
            ).contains_key(#[trigger] ids[j]) && register_all(m, ids, senders).remove(ids[k])[ids[j]]
                == senders[j],
{
    lemma_register_all(m, ids, senders);
}

} // verus!
