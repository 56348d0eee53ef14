//! Tasks, their identifiers, and the collection that the scheduler keeps.

use crossbeam_queue::ArrayQueue;
use std::collections::BTreeMap;
use vstd::prelude::*;

verus! {

/// The bounded queue of `crossbeam_queue`.
#[verifier::external_type_specification]
#[verifier::external_body]
#[verifier::reject_recursive_types(T)]
pub struct ExArrayQueue<T>(ArrayQueue<T>);

/// The identifiers that a queue holds, the one that leaves next first.
pub uninterp spec fn queue_contents(q: ArrayQueue<u64>) -> Seq<u64>;

/// The number of identifiers that a queue was made for.
pub uninterp spec fn queue_capacity(q: ArrayQueue<u64>) -> nat;

/// Calls `ArrayQueue::new`. The crate makes an empty queue for `cap` items
/// and panics when `cap` is zero or too large for its lap counter, which are
/// excluded here.
#[verifier::external_body]
fn queue_new(cap: usize) -> (q: ArrayQueue<u64>)
    requires
        0 < cap <= 0x1_0000,
    ensures
        queue_contents(q) == Seq::<u64>::empty(),
        queue_capacity(q) == cap,
{
    ArrayQueue::new(cap)
}

/// Calls `ArrayQueue::push` on a queue that nobody else holds. The crate puts
/// `id` behind the items of the queue, or hands it back when the queue holds
/// as many items as it was made for.
#[verifier::external_body]
fn queue_push(q: &mut ArrayQueue<u64>, id: u64) -> (r: Result<(), u64>)
    ensures
        queue_capacity(*final(q)) == queue_capacity(*old(q)),
        queue_contents(*old(q)).len() < queue_capacity(*old(q)) ==> r.is_ok()
            && queue_contents(*final(q)) == queue_contents(*old(q)).push(id),
        queue_contents(*old(q)).len() >= queue_capacity(*old(q)) ==> r.is_err() && r->Err_0 == id
            && queue_contents(*final(q)) == queue_contents(*old(q)),
{
    q.push(id)
}

/// Calls `ArrayQueue::pop` on a queue that nobody else holds. The crate takes
/// the item out that was put in first, or returns `None` when the queue is
/// empty.
#[verifier::external_body]
fn queue_pop(q: &mut ArrayQueue<u64>) -> (r: Option<u64>)
    ensures
        queue_capacity(*final(q)) == queue_capacity(*old(q)),
        queue_contents(*old(q)).len() > 0 ==> r == Some(queue_contents(*old(q)).first())
            && queue_contents(*final(q)) == queue_contents(*old(q)).drop_first(),
        queue_contents(*old(q)).len() == 0 ==> r.is_none() && queue_contents(*final(q))
            == queue_contents(*old(q)),
{
    q.pop()
}

/// Calls `ArrayQueue::is_empty` on a queue that nobody else holds, which says
/// whether the queue holds no item.
#[verifier::external_body]
fn queue_is_empty(q: &ArrayQueue<u64>) -> (r: bool)
    ensures
        r == (queue_contents(*q).len() == 0),
{
    q.is_empty()
}

/// The number of identifiers that the queue of woken tasks can hold.
pub const QUEUE_CAPACITY: usize = 100;

/// Why the collection refused a task or a wake-up.
#[derive(Clone, Copy, Debug, PartialEq, Eq, Structural)]
pub enum Error {
    /// The queue of woken tasks holds as many identifiers as it can.
    QueueFull,
    /// The table already holds a task with that identifier.
    IdConflict,
}

/// The identifier of a task.
#[derive(Clone, Copy, Debug, PartialEq, Eq, PartialOrd, Ord, Structural)]
pub struct Id(u64);

impl View for Id {
    type V = u64;

    closed spec fn view(&self) -> u64 {
        self.0
    }
}

/// The source of fresh identifiers: each one it hands out is greater than
/// those before.
pub struct IdSource {
    next: u64,
}

impl IdSource {
    /// The identifier that is handed out next.
    pub closed spec fn next(self) -> u64 {
        self.next
    }

    /// A source that starts at zero.
    pub fn new() -> (r: IdSource)
        ensures
            r.next() == 0,
    {
        IdSource { next: 0 }
    }
}

impl Id {
    /// A fresh identifier: the next of `source`, which then moves on. There
    /// is none left when the source has reached the greatest number.
    pub fn new(source: &mut IdSource) -> (r: Option<Id>)
        ensures
            old(source).next() < u64::MAX ==> r.is_some() && r.unwrap()@ == old(source).next()
                && final(source).next() == old(source).next() + 1,
            old(source).next() == u64::MAX ==> r.is_none() && final(source).next() == old(source).next(),
    {
        if source.next == u64::MAX {
            None
        } else {
            let id = Id(source.next);
            source.next = source.next + 1;
            Some(id)
        }
    }

    /// The identifier with the number `raw`.
    pub closed spec fn spec_from_u64(raw: u64) -> Id {
        Id(raw)
    }

    /// The identifier with the number `raw`.
    #[verifier::when_used_as_spec(spec_from_u64)]
    pub fn from_u64(raw: u64) -> (r: Id)
        ensures
            r == Id::spec_from_u64(raw),
            r@ == raw,
    {
        Id(raw)
    }

    /// An identifier is the one that is made from its number.
    pub proof fn lemma_spec_from_u64(id: Id)
        ensures
            Id::spec_from_u64(id@) == id,
    {
    }

    /// The number of the identifier.
    pub fn as_u64(self) -> (r: u64)
        ensures
            r == self@,
    {
        self.0
    }

    /// Two identifiers are the same exactly when their numbers are.
    pub proof fn lemma_view_injective(a: Id, b: Id)
        ensures
            (a@ == b@) == (a == b),
    {
    }
}

/// What the scheduler keeps of a computation: its identifier, and whether it
/// has to be polled once when it is created or only when it is woken.
#[derive(Clone, Copy, Debug, PartialEq, Eq, Structural)]
pub struct Task {
    id: Id,
    polling: bool,
}

impl Task {
    /// The identifier of the task.
    pub closed spec fn spec_id(&self) -> Id {
        self.id
    }

    /// Whether the task has to be polled once when it is created.
    pub closed spec fn spec_polling(&self) -> bool {
        self.polling
    }

    /// The handle that wakes the task.
    pub closed spec fn spec_waker(&self) -> TaskWaker {
        TaskWaker { id: self.id }
    }

    /// The handle that wakes the task.
    #[verifier::when_used_as_spec(spec_waker)]
    pub fn waker(&self) -> (r: TaskWaker)
        ensures
            r == self.spec_waker(),
            r.spec_id() == self.spec_id(),
    {
        TaskWaker { id: self.id }
    }

    /// A task with a fresh identifier that is polled only when it is woken.
    pub fn new(source: &mut IdSource) -> (r: Option<Task>)
        ensures
            old(source).next() < u64::MAX ==> r.is_some() && r.unwrap().spec_id()@ == old(source).next() && !r.unwrap().spec_polling() && final(source).next() == old(source).next()
                + 1,
            old(source).next() == u64::MAX ==> r.is_none() && final(source).next() == old(source).next(),
    {
        match Id::new(source) {
            Some(id) => Some(Task { id, polling: false }),
            None => None,
        }
    }

    /// A task with a fresh identifier that is polled once when it is created.
    pub fn new_poll(source: &mut IdSource) -> (r: Option<Task>)
        ensures
            old(source).next() < u64::MAX ==> r.is_some() && r.unwrap().spec_id()@ == old(source).next() && r.unwrap().spec_polling() && final(source).next() == old(source).next()
                + 1,
            old(source).next() == u64::MAX ==> r.is_none() && final(source).next() == old(source).next(),
    {
        match Id::new(source) {
            Some(id) => Some(Task { id, polling: true }),
            None => None,
        }
    }

    /// The identifier of the task.
    #[verifier::when_used_as_spec(spec_id)]
    pub fn id(&self) -> (r: Id)
        ensures
            r == self.spec_id(),
    {
        self.id
    }

    /// Whether the task has to be polled once when it is created.
    #[verifier::when_used_as_spec(spec_polling)]
    pub fn polling(&self) -> (r: bool)
        ensures
            r == self.spec_polling(),
    {
        self.polling
    }
}

/// What the scheduler knows: the table of the tasks that have not completed,
/// by the number of their identifier, and the identifiers of the tasks that
/// were woken, the one that runs next first.
pub struct State {
    pub tasks: Map<u64, Task>,
    pub woken: Seq<u64>,
}

impl State {
    /// Every task stands under its own identifier, and the queue holds no
    /// more than it can.
    pub open spec fn wf(self) -> bool {
        &&& forall|k: u64| #[trigger] self.tasks.contains_key(k) ==> self.tasks[k].spec_id()@ == k
        &&& self.woken.len() <= QUEUE_CAPACITY
    }

    /// Whether the queue of woken tasks can take no more.
    pub open spec fn saturated(self) -> bool {
        self.woken.len() >= QUEUE_CAPACITY
    }

    /// The state with `task` in the table.
    pub open spec fn push_task(self, task: Task) -> State {
        State { tasks: self.tasks.insert(task.spec_id()@, task), ..self }
    }

    /// The state with `id` behind the woken tasks.
    pub open spec fn wake(self, id: Id) -> State {
        State { woken: self.woken.push(id@), ..self }
    }

    /// The state without the first of the woken tasks.
    pub open spec fn pop(self) -> State {
        State { woken: self.woken.drop_first(), ..self }
    }

    /// The state without the task `id`.
    pub open spec fn remove(self, id: Id) -> State {
        State { tasks: self.tasks.remove(id@), ..self }
    }
}

/// A state with the table of a well-formed one, and a queue within its
/// bound, is well-formed.
proof fn lemma_same_tasks(before: State, after: State)
    requires
        before.wf(),
        after.tasks == before.tasks,
        after.woken.len() <= QUEUE_CAPACITY,
    ensures
        after.wf(),
{
    assert forall|k: u64| #[trigger] after.tasks.contains_key(k) implies after.tasks[k].spec_id()@
        == k by {
        assert(before.tasks.contains_key(k));
    }
}

/// A handle that wakes one task: invoking it puts the identifier of the task
/// behind the woken ones.
#[derive(Clone, Copy, Debug, PartialEq, Eq, Structural)]
pub struct TaskWaker {
    id: Id,
}

impl TaskWaker {
    /// The identifier of the task that the handle wakes.
    pub closed spec fn spec_id(&self) -> Id {
        self.id
    }

    /// A handle for the task `id`.
    pub fn new(id: Id) -> (r: TaskWaker)
        ensures
            r.spec_id() == id,
    {
        TaskWaker { id }
    }

    /// The identifier of the task that the handle wakes.
    #[verifier::when_used_as_spec(spec_id)]
    pub fn id(&self) -> (r: Id)
        ensures
            r == self.spec_id(),
    {
        self.id
    }

    /// Wakes the task: puts its identifier behind the woken ones of `tasks`,
    /// whether or not the table still holds the task. It fails, and nothing
    /// changes, exactly when the queue is full.
    pub fn wake_task(&self, tasks: &mut Collection) -> (r: Result<(), Error>)
        requires
            old(tasks).wf(),
        ensures
            final(tasks).wf(),
            match r {
                Ok(_) => !old(tasks)@.saturated() && final(tasks)@ == old(tasks)@.wake(
                    self.spec_id(),
                ),
                Err(e) => e == Error::QueueFull && old(tasks)@.saturated() && final(tasks)@
                    == old(tasks)@,
            },
    {
        tasks.push_woken_task_id(self.id)
    }
}

/// The tasks of a scheduler and the queue of those that were woken.
pub struct Collection {
    tasks: BTreeMap<u64, Task>,
    woken_task_ids: ArrayQueue<u64>,
}

impl View for Collection {
    type V = State;

    closed spec fn view(&self) -> State {
        State { tasks: self.tasks@, woken: queue_contents(self.woken_task_ids) }
    }
}

impl Collection {
    /// The collection is one that [`State::wf`] describes.
    pub closed spec fn wf(self) -> bool {
        &&& self@.wf()
        &&& queue_capacity(self.woken_task_ids) == QUEUE_CAPACITY
    }

    /// What follows from well-formedness over the view.
    pub proof fn lemma_wf(self)
        requires
            self.wf(),
        ensures
            self@.wf(),
    {
    }

    /// A collection without tasks.
    pub fn new() -> (r: Collection)
        ensures
            r.wf(),
            r@.tasks == Map::<u64, Task>::empty(),
            r@.woken == Seq::<u64>::empty(),
    {
        Collection { tasks: BTreeMap::new(), woken_task_ids: queue_new(QUEUE_CAPACITY) }
    }

    /// Puts `task` into the table and its identifier behind the woken ones.
    /// It fails, and nothing changes, when the table already holds a task
    /// with that identifier, or else when the queue is full.
    pub fn add_task_as_woken(&mut self, task: Task) -> (r: Result<(), Error>)
        requires
            old(self).wf(),
        ensures
            final(self).wf(),
            match r {
                Ok(_) => {
                    &&& !old(self)@.tasks.contains_key(task.spec_id()@)
                    &&& !old(self)@.saturated()
                    &&& final(self)@ == old(self)@.push_task(task).wake(task.spec_id())
                },
                Err(e) => {
                    &&& final(self)@ == old(self)@
                    &&& e == (if old(self)@.tasks.contains_key(task.spec_id()@) {
                        Error::IdConflict
                    } else {
                        Error::QueueFull
                    })
                    &&& old(self)@.tasks.contains_key(task.spec_id()@) || old(self)@.saturated()
                },
            },
    {
        let id = task.id();
        if self.tasks.contains_key(&id.as_u64()) {
            return Err(Error::IdConflict);
        }
        match self.push_woken_task_id(id) {
            Ok(()) => {},
            Err(e) => {
                return Err(e);
            },
        }
        self.push_task(task)
    }

    /// Puts `task` into the table; it runs when it is woken. It fails, and
    /// nothing changes, exactly when the table already holds a task with
    /// that identifier.
    pub fn add_task_as_sleep(&mut self, task: Task) -> (r: Result<(), Error>)
        requires
            old(self).wf(),
        ensures
            final(self).wf(),
            match r {
                Ok(_) => !old(self)@.tasks.contains_key(task.spec_id()@) && final(self)@ == old(self)@.push_task(task),
                Err(e) => e == Error::IdConflict && old(self)@.tasks.contains_key(
                    task.spec_id()@,
                ) && final(self)@ == old(self)@,
            },
    {
        self.push_task(task)
    }

    /// Puts `task` into the table unless its identifier is taken.
    fn push_task(&mut self, task: Task) -> (r: Result<(), Error>)
        requires
            old(self).wf(),
        ensures
            final(self).wf(),
            match r {
                Ok(_) => !old(self)@.tasks.contains_key(task.spec_id()@) && final(self)@ == old(self)@.push_task(task),
                Err(e) => e == Error::IdConflict && old(self)@.tasks.contains_key(
                    task.spec_id()@,
                ) && final(self)@ == old(self)@,
            },
    {
        let id = task.id();
        if self.tasks.contains_key(&id.as_u64()) {
            return Err(Error::IdConflict);
        }
        self.tasks.insert(id.as_u64(), task);
        proof {
            assert forall|k: u64| #[trigger] self@.tasks.contains_key(k) implies self@.tasks[k].spec_id()@
                == k by {
                if k != id@ {
                    assert(old(self)@.tasks.contains_key(k));
                }
            }
        }
        Ok(())
    }

    /// Puts `id` behind the woken tasks, whether or not the table holds a
    /// task with that identifier. It fails, and nothing changes, exactly when
    /// the queue is full.
    pub fn push_woken_task_id(&mut self, id: Id) -> (r: Result<(), Error>)
        requires
            old(self).wf(),
        ensures
            final(self).wf(),
            match r {
                Ok(_) => !old(self)@.saturated() && final(self)@ == old(self)@.wake(id),
                Err(e) => e == Error::QueueFull && old(self)@.saturated() && final(self)@ == old(self)@,
            },
    {
        let r = queue_push(&mut self.woken_task_ids, id.as_u64());
        proof {
            lemma_same_tasks(old(self)@, self@);
        }
        match r {
            Ok(()) => Ok(()),
            Err(_) => Err(Error::QueueFull),
        }
    }

    /// Whether a task was woken and has not run since.
    pub fn woken_task_exists(&self) -> (r: bool)
        ensures
            r == (self@.woken.len() > 0),
    {
        !queue_is_empty(&self.woken_task_ids)
    }

    /// Takes the identifier out that was woken first, if there is one.
    pub fn pop_woken_task_id(&mut self) -> (r: Option<Id>)
        requires
            old(self).wf(),
        ensures
            final(self).wf(),
            match r {
                Some(id) => old(self)@.woken.len() > 0 && id@ == old(self)@.woken.first()
                    && final(self)@ == old(self)@.pop(),
                None => old(self)@.woken.len() == 0 && final(self)@ == old(self)@,
            },
    {
        let popped = queue_pop(&mut self.woken_task_ids);
        proof {
            lemma_same_tasks(old(self)@, self@);
        }
        match popped {
            Some(raw) => Some(Id(raw)),
            None => None,
        }
    }

    /// Whether the table holds the task `id`.
    pub fn contains(&self, id: Id) -> (r: bool)
        ensures
            r == self@.tasks.contains_key(id@),
    {
        self.tasks.contains_key(&id.as_u64())
    }

    /// The task `id`, if the table holds it.
    pub fn get(&self, id: Id) -> (r: Option<Task>)
        ensures
            match r {
                Some(task) => self@.tasks.contains_key(id@) && task == self@.tasks[id@],
                None => !self@.tasks.contains_key(id@),
            },
    {
        match self.tasks.get(&id.as_u64()) {
            Some(task) => Some(*task),
            None => None,
        }
    }

    /// Takes the task `id` out of the table, if it is there.
    pub fn remove_task(&mut self, id: Id) -> (r: Option<Task>)
        requires
            old(self).wf(),
        ensures
            final(self).wf(),
            final(self)@ == old(self)@.remove(id),
            match r {
                Some(task) => old(self)@.tasks.contains_key(id@) && task == old(self)@.tasks[id@],
                None => !old(self)@.tasks.contains_key(id@),
            },
    {
        let removed = self.tasks.remove(&id.as_u64());
        proof {
            assert forall|k: u64| #[trigger] self@.tasks.contains_key(k) implies self@.tasks[k].spec_id()@
                == k by {
                assert(old(self)@.tasks.contains_key(k));
            }
        }
        removed
    }

    /// A handle that wakes the task `id`.
    pub fn create_waker(&mut self, id: Id) -> (r: TaskWaker)
        ensures
            r.spec_id() == id,
            *final(self) == *old(self),
    {
        TaskWaker::new(id)
    }
}

} // verus!
