//! The decisions of the loop that runs the tasks.
//!
//! The loop itself stands outside this crate, because polling a computation
//! is outside work. It asks [`Executor::next`] what to do, polls the task
//! that it is told to poll, and reports the outcome with
//! [`Executor::finish`] before it asks again: one task is polled at a time.
//! A task that has completed is never polled again.

use crate::multitask::task::{Collection, Error, Id, State, Task, TaskWaker};
use vstd::prelude::*;

verus! {

/// What the loop has to do next.
#[derive(Clone, Copy, Debug, PartialEq, Eq, Structural)]
pub enum Step {
    /// No task was woken: wait until one is.
    Idle,
    /// The task that was woken has completed before: go on.
    Skip(Id),
    /// Poll the task, with a handle that wakes it.
    Poll(Id, TaskWaker),
}

/// What a task reported when it was polled.
#[derive(Clone, Copy, Debug, PartialEq, Eq, Structural)]
pub enum Polled {
    /// The task has completed.
    Ready,
    /// The task waits to be woken.
    Pending,
}

/// How often `id` stands in `queue`.
pub open spec fn occurrences(queue: Seq<u64>, id: u64) -> nat
    decreases queue.len(),
{
    if queue.len() == 0 {
        0
    } else {
        occurrences(queue.drop_last(), id) + (if queue.last() == id {
            1nat
        } else {
            0nat
        })
    }
}

/// Taking the first identifier out of a queue takes one occurrence of that
/// identifier away and none of any other.
pub proof fn lemma_occurrences_drop_first(queue: Seq<u64>, id: u64)
    requires
        queue.len() > 0,
    ensures
        occurrences(queue, id) == occurrences(queue.drop_first(), id) + (if queue.first() == id {
            1nat
        } else {
            0nat
        }),
    decreases queue.len(),
{
    if queue.len() == 1 {
        assert(queue.drop_first().len() == 0);
        assert(queue.drop_last().len() == 0);
    } else {
        lemma_occurrences_drop_first(queue.drop_last(), id);
        assert(queue.drop_last().drop_first() =~= queue.drop_first().drop_last());
        assert(queue.drop_last().first() == queue.first());
        assert(queue.drop_first().last() == queue.last());
    }
}

impl State {
    /// The number of polls that the task `id` is owed: how often it stands
    /// among the woken tasks, as long as the table holds it.
    pub open spec fn owed_polls(self, id: Id) -> nat {
        if self.tasks.contains_key(id@) {
            occurrences(self.woken, id@)
        } else {
            0
        }
    }

    /// Polls are owed for being created ready and for being woken, and for
    /// nothing else; each poll pays one of them. So a task that is created
    /// ready and woken once is polled twice and no third time, whatever else
    /// the scheduler holds:
    ///
    /// - a wake of a task in the table owes it one poll more, and changes
    ///   what no other task is owed;
    /// - taking a task in owes it one poll if it has to be polled on
    ///   creation and none if not, where its identifier is fresh;
    /// - a task is polled only if it is owed a poll, and the poll pays one;
    ///   a step that polls nobody pays nothing;
    /// - a task that reports that it waits is owed what it was, and one that
    ///   reports that it has completed is owed nothing, whatever stands in
    ///   the queue.
    pub proof fn lemma_polls_are_owed(self, id: Id, other: Id, task: Task, outcome: Polled)
        requires
            self.wf(),
        ensures
            self.wake(id).owed_polls(id) == (if self.tasks.contains_key(id@) {
                self.owed_polls(id) + 1
            } else {
                0
            }),
            other != id ==> self.wake(id).owed_polls(other) == self.owed_polls(other),
            !self.tasks.contains_key(task.spec_id()@) && occurrences(self.woken, task.spec_id()@)
                == 0 ==> self.spawn(task).owed_polls(task.spec_id()) == (if task.spec_polling() {
                1nat
            } else {
                0nat
            }),
            self.step() matches Step::Poll(polled, _) ==> self.owed_polls(polled) >= 1
                && self.after_step().owed_polls(polled) == self.owed_polls(polled) - 1 && (other
                != polled ==> self.after_step().owed_polls(other) == self.owed_polls(other)),
            !(self.step() is Poll) ==> self.after_step().owed_polls(other) == self.owed_polls(
                other,
            ),
            self.finish(id, Polled::Pending).owed_polls(other) == self.owed_polls(other),
            self.finish(id, Polled::Ready).owed_polls(id) == 0,
            other != id ==> self.finish(id, Polled::Ready).owed_polls(other) == self.owed_polls(
                other,
            ),
    {
        Id::lemma_view_injective(id, other);
        assert(self.wake(id).woken.drop_last() =~= self.woken);
        let created = self.spawn(task);
        if task.spec_polling() {
            assert(created.woken.drop_last() =~= self.woken);
        }
        if self.woken.len() > 0 {
            lemma_occurrences_drop_first(self.woken, other@);
            if self.tasks.contains_key(self.woken.first()) {
                let polled = self.tasks[self.woken.first()].spec_id();
                lemma_occurrences_drop_first(self.woken, polled@);
                Id::lemma_view_injective(polled, other);
            }
        }
    }

    /// What the loop has to do next in this state.
    pub open spec fn step(self) -> Step {
        if self.woken.len() == 0 {
            Step::Idle
        } else if self.tasks.contains_key(self.woken.first()) {
            Step::Poll(
                self.tasks[self.woken.first()].spec_id(),
                self.tasks[self.woken.first()].spec_waker(),
            )
        } else {
            Step::Skip(Id::spec_from_u64(self.woken.first()))
        }
    }

    /// The state after the loop was told what to do next.
    pub open spec fn after_step(self) -> State {
        if self.woken.len() == 0 {
            self
        } else {
            self.pop()
        }
    }

    /// The state after the task `id` reported `outcome`.
    pub open spec fn finish(self, id: Id, outcome: Polled) -> State {
        match outcome {
            Polled::Ready => self.remove(id),
            Polled::Pending => self,
        }
    }

    /// The state after `task` was created: it is in the table, and behind the
    /// woken tasks if it has to be polled once on creation.
    pub open spec fn spawn(self, task: Task) -> State {
        if task.spec_polling() {
            self.push_task(task).wake(task.spec_id())
        } else {
            self.push_task(task)
        }
    }

    /// Whatever else the scheduler holds: when the identifier at the front of
    /// the queue belongs to a task in the table, that task is polled. Where it
    /// then reports that it has completed, it leaves the table and the other
    /// tasks stay; where it reports that it waits, the table stays as it is.
    pub proof fn lemma_front_is_polled(self)
        requires
            self.wf(),
            self.woken.len() > 0,
            self.tasks.contains_key(self.woken.first()),
        ensures
            ({
                let task = self.tasks[self.woken.first()];
                &&& task.spec_id()@ == self.woken.first()
                &&& self.step() == Step::Poll(task.spec_id(), task.spec_waker())
                &&& self.after_step().woken == self.woken.drop_first()
                &&& self.after_step().finish(task.spec_id(), Polled::Ready).tasks
                    == self.tasks.remove(task.spec_id()@)
                &&& self.after_step().finish(task.spec_id(), Polled::Pending).tasks == self.tasks
            }),
    {
    }

    /// Whatever else the scheduler holds: when the identifier at the front of
    /// the queue belongs to no task in the table, because the task has
    /// completed, no task is polled and the table stays as it is.
    pub proof fn lemma_stale_wake_is_skipped(self)
        requires
            self.wf(),
            self.woken.len() > 0,
            !self.tasks.contains_key(self.woken.first()),
        ensures
            self.step() == Step::Skip(Id::spec_from_u64(self.woken.first())),
            self.after_step().tasks == self.tasks,
            self.after_step().woken == self.woken.drop_first(),
    {
    }

    /// Waking a task puts its identifier behind the woken ones once and
    /// changes nothing else, whether or not the table holds the task.
    pub proof fn lemma_wake_queues_once(self, id: Id)
        ensures
            self.wake(id).tasks == self.tasks,
            self.wake(id).woken == self.woken.push(id@),
            self.wake(id).woken.len() == self.woken.len() + 1,
    {
    }

    /// In a scheduler with nothing else to run, a task that completes when it
    /// is first polled is polled once and has then left the table; nothing is
    /// left to do for it.
    pub proof fn lemma_completes_after_one_poll(self, task: Task)
        requires
            self.wf(),
            self.woken.len() == 0,
            !self.tasks.contains_key(task.spec_id()@),
        ensures
            ({
                let created = self.push_task(task).wake(task.spec_id());
                let polled = created.after_step().finish(task.spec_id(), Polled::Ready);
                &&& created.step() == Step::Poll(task.spec_id(), task.spec_waker())
                &&& !polled.tasks.contains_key(task.spec_id()@)
                &&& polled.tasks == self.tasks
                &&& polled.step() == Step::Idle
            }),
    {
        let created = self.push_task(task).wake(task.spec_id());
        assert(created.woken.first() == task.spec_id()@);
        let polled = created.after_step().finish(task.spec_id(), Polled::Ready);
        assert(polled.tasks =~= self.tasks);
        assert(polled.woken =~= Seq::<u64>::empty());
    }

    /// In a scheduler with nothing else to run, a task that waits when it is
    /// first polled stays in the table and is not polled until it is woken;
    /// woken once, it is polled once more, and when it then completes it has
    /// left the table after two polls.
    pub proof fn lemma_completes_after_wake(self, task: Task)
        requires
            self.wf(),
            self.woken.len() == 0,
            !self.tasks.contains_key(task.spec_id()@),
        ensures
            ({
                let created = self.push_task(task).wake(task.spec_id());
                let waiting = created.after_step().finish(task.spec_id(), Polled::Pending);
                let woken = waiting.wake(task.spec_id());
                let done = woken.after_step().finish(task.spec_id(), Polled::Ready);
                &&& created.step() == Step::Poll(task.spec_id(), task.spec_waker())
                &&& waiting.tasks.contains_key(task.spec_id()@)
                &&& waiting.step() == Step::Idle
                &&& woken.step() == Step::Poll(task.spec_id(), task.spec_waker())
                &&& !done.tasks.contains_key(task.spec_id()@)
                &&& done.step() == Step::Idle
            }),
    {
        let created = self.push_task(task).wake(task.spec_id());
        assert(created.woken.first() == task.spec_id()@);
        let waiting = created.after_step().finish(task.spec_id(), Polled::Pending);
        assert(waiting.woken =~= Seq::<u64>::empty());
        let woken = waiting.wake(task.spec_id());
        assert(woken.woken.first() == task.spec_id()@);
        let done = woken.after_step().finish(task.spec_id(), Polled::Ready);
        assert(done.woken =~= Seq::<u64>::empty());
    }

    /// In a scheduler with nothing else to run, waking a task that has
    /// completed is no error and runs nothing: the table stays as it is, and
    /// when the loop comes to the identifier it is told to go on.
    pub proof fn lemma_wake_after_completion(self, id: Id)
        requires
            self.wf(),
            self.woken.len() == 0,
            !self.tasks.contains_key(id@),
        ensures
            !self.saturated(),
            self.wake(id).tasks == self.tasks,
            self.wake(id).step() == Step::Skip(id),
            self.wake(id).after_step() == self,
    {
        assert(self.wake(id).woken.first() == id@);
        assert(self.wake(id).after_step().woken =~= self.woken);
        Id::lemma_spec_from_u64(id);
    }

    /// A task that is not in the table is never polled, whatever the queue
    /// holds: no task runs again after it has completed.
    pub proof fn lemma_completed_never_polled(self, id: Id)
        requires
            self.wf(),
            !self.tasks.contains_key(id@),
        ensures
            !(self.step() matches Step::Poll(polled, _) && polled == id),
    {
        if self.woken.len() > 0 && self.tasks.contains_key(self.woken.first()) {
            Id::lemma_view_injective(self.tasks[self.woken.first()].spec_id(), id);
        }
    }
}

/// The scheduler: the tasks, and the task that is being polled.
pub struct Executor {
    tasks: Collection,
    running: Option<Id>,
}

impl View for Executor {
    type V = State;

    open spec fn view(&self) -> State {
        self.collection()@
    }
}

impl Executor {
    /// The tasks of the scheduler.
    pub closed spec fn collection(self) -> Collection {
        self.tasks
    }

    /// The task that the loop was told to poll and whose outcome it has not
    /// reported yet.
    pub closed spec fn running(self) -> Option<Id> {
        self.running
    }

    /// The scheduler is one that [`State::wf`] describes.
    pub open spec fn wf(self) -> bool {
        self.collection().wf()
    }

    /// What follows from well-formedness over the view.
    pub proof fn lemma_wf(self)
        requires
            self.wf(),
        ensures
            self@.wf(),
    {
        self.tasks.lemma_wf();
    }

    /// A scheduler without tasks.
    pub fn new() -> (r: Executor)
        ensures
            r.wf(),
            r@.tasks == Map::<u64, Task>::empty(),
            r@.woken == Seq::<u64>::empty(),
            r.running().is_none(),
    {
        Executor { tasks: Collection::new(), running: None }
    }

    /// Takes `task` in: puts it into the table, and behind the woken tasks
    /// if it has to be polled once on creation. It fails, and nothing
    /// changes, when the table already holds a task with that identifier, or
    /// else when the task has to be queued and the queue is full.
    pub fn spawn(&mut self, task: Task) -> (r: Result<(), Error>)
        requires
            old(self).wf(),
        ensures
            final(self).wf(),
            final(self).running() == old(self).running(),
            match r {
                Ok(_) => {
                    &&& !old(self)@.tasks.contains_key(task.spec_id()@)
                    &&& task.spec_polling() ==> !old(self)@.saturated()
                    &&& final(self)@ == old(self)@.spawn(task)
                },
                Err(e) => {
                    &&& final(self)@ == old(self)@
                    &&& e == (if old(self)@.tasks.contains_key(task.spec_id()@) {
                        Error::IdConflict
                    } else {
                        Error::QueueFull
                    })
                    &&& old(self)@.tasks.contains_key(task.spec_id()@) || (task.spec_polling()
                        && old(self)@.saturated())
                },
            },
    {
        if task.polling() {
            self.tasks.add_task_as_woken(task)
        } else {
            self.tasks.add_task_as_sleep(task)
        }
    }

    /// Wakes the task `id`: puts the identifier behind the woken ones,
    /// whether or not a task is being polled. It fails, and nothing changes,
    /// exactly when the queue is full.
    pub fn wake(&mut self, id: Id) -> (r: Result<(), Error>)
        requires
            old(self).wf(),
        ensures
            final(self).wf(),
            final(self).running() == old(self).running(),
            match r {
                Ok(_) => {
                    &&& !old(self)@.saturated()
                    &&& final(self)@ == old(self)@.wake(id)
                    &&& old(self)@.tasks.contains_key(id@) ==> final(self)@.owed_polls(id) == old(
                        self,
                    )@.owed_polls(id) + 1
                },
                Err(e) => e == Error::QueueFull && old(self)@.saturated() && final(self)@ == old(self)@,
            },
    {
        proof {
            self.lemma_wf();
            self@.lemma_polls_are_owed(id, id, arbitrary(), Polled::Pending);
        }
        self.tasks.push_woken_task_id(id)
    }

    /// Says what the loop has to do next, and takes the identifier that it
    /// speaks of out of the queue. No task may be in the middle of a poll;
    /// the task that the loop is told to poll is from then on.
    pub fn next(&mut self) -> (r: Step)
        requires
            old(self).wf(),
            old(self).running().is_none(),
        ensures
            final(self).wf(),
            r == old(self)@.step(),
            final(self)@ == old(self)@.after_step(),
            final(self).running() == (match r {
                Step::Poll(id, _) => Some(id),
                _ => None,
            }),
            r matches Step::Poll(id, _) ==> old(self)@.tasks.contains_key(id@) && old(
                self,
            )@.owed_polls(id) >= 1 && final(self)@.owed_polls(id) == old(self)@.owed_polls(id) - 1,
    {
        proof {
            self.lemma_wf();
            match self@.step() {
                Step::Poll(id, _) => {
                    self@.lemma_polls_are_owed(id, id, arbitrary(), Polled::Pending);
                },
                _ => {},
            }
        }
        match self.tasks.pop_woken_task_id() {
            None => Step::Idle,
            Some(id) => {
                proof {
                    self.tasks.lemma_wf();
                    Id::lemma_spec_from_u64(id);
                }
                match self.tasks.get(id) {
                    Some(task) => {
                        proof {
                            Id::lemma_view_injective(task.spec_id(), id);
                        }
                        self.running = Some(id);
                        Step::Poll(id, task.waker())
                    },
                    None => Step::Skip(id),
                }
            },
        }
    }

    /// Takes note of what the task `id`, which is the one that the loop was
    /// told to poll, has reported: a task that has completed leaves the
    /// table, one that waits stays. The poll is then over.
    pub fn finish(&mut self, id: Id, outcome: Polled)
        requires
            old(self).wf(),
            old(self).running() == Some(id),
        ensures
            final(self).wf(),
            final(self)@ == old(self)@.finish(id, outcome),
            final(self).running().is_none(),
            outcome == Polled::Ready ==> !final(self)@.tasks.contains_key(id@) && final(self)@.owed_polls(id) == 0,
            outcome == Polled::Pending ==> final(self)@.owed_polls(id) == old(self)@.owed_polls(id),
    {
        self.running = None;
        match outcome {
            Polled::Ready => {
                let _ = self.tasks.remove_task(id);
            },
            Polled::Pending => {},
        }
    }

    /// The tasks of the scheduler, for those that wake tasks from outside
    /// the loop.
    pub fn tasks_mut(&mut self) -> (r: &mut Collection)
        ensures
            *r == old(self).collection(),
            final(self).collection() == *final(r),
            final(self).running() == old(self).running(),
    {
        &mut self.tasks
    }
}

} // verus!
