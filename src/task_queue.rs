use std::collections::VecDeque;
use vstd::prelude::*;

verus! {

/// What a worker gets when it asks the queue for work.
pub enum Dequeued<T> {
    /// The oldest pending task, now owned by the worker that asked.
    Task(T),
    /// Nothing is pending but more may come: the worker should wait.
    Wait,
    /// The queue is closed and drained: the worker should stop.
    Finished,
}

/// The state of a task queue: its pending tasks, oldest first, and whether
/// it has been closed.
pub struct QueueState<T> {
    pub pending: Seq<T>,
    pub closed: bool,
}

/// Whether a queue in state `q` takes a new task.
pub open spec fn accepts<T>(q: QueueState<T>) -> bool {
    !q.closed
}

/// The state of a queue in state `q` once it is closed.
pub open spec fn closed_state<T>(q: QueueState<T>) -> QueueState<T> {
    QueueState { closed: true, ..q }
}

/// The queue through which a pool hands tasks to its workers, first in,
/// first out. It starts open; once closed it accepts no further task, and
/// the tasks already in it are still handed out.
pub struct TaskQueue<T> {
    pending: VecDeque<T>,
    closed: bool,
}

impl<T> View for TaskQueue<T> {
    type V = QueueState<T>;

    closed spec fn view(&self) -> QueueState<T> {
        QueueState { pending: self.pending@, closed: self.closed }
    }
}

impl<T> TaskQueue<T> {
    /// An open queue with no pending task.
    pub fn new() -> (r: Self)
        ensures
            r@.pending == Seq::<T>::empty(),
            !r@.closed,
    {
        TaskQueue { pending: VecDeque::new(), closed: false }
    }

    /// Adds `task` behind the pending tasks while the queue is open. A closed
    /// queue refuses it and hands it back, and stays as it was.
    pub fn enqueue(&mut self, task: T) -> (r: Result<(), T>)
        ensures
            r is Ok <==> accepts(old(self)@),
            r is Ok ==> final(self)@ == (QueueState { pending: old(self)@.pending.push(task), ..old(self)@ }),
            r is Err ==> r->Err_0 == task && final(self)@ == old(self)@,
    {
        if self.closed {
            Err(task)
        } else {
            self.pending.push_back(task);
            Ok(())
        }
    }

    /// Hands out the oldest pending task, whether or not the queue is closed.
    /// With nothing pending, says to wait while the queue is open and to stop
    /// once it is closed.
    pub fn dequeue(&mut self) -> (r: Dequeued<T>)
        ensures
            old(self)@.pending.len() > 0 ==> r == Dequeued::Task(old(self)@.pending[0]),
            old(self)@.pending.len() > 0 ==> final(self)@ == (QueueState {
                pending: old(self)@.pending.drop_first(),
                ..old(self)@
            }),
            old(self)@.pending.len() == 0 && !old(self)@.closed ==> r is Wait,
            old(self)@.pending.len() == 0 && old(self)@.closed ==> r is Finished,
            old(self)@.pending.len() == 0 ==> final(self)@ == old(self)@,
    {
        match self.pending.pop_front() {
            Some(task) => Dequeued::Task(task),
            None => {
                if self.closed {
                    Dequeued::Finished
                } else {
                    Dequeued::Wait
                }
            },
        }
    }

    /// Closes the queue: later tasks are refused, pending ones are kept.
    /// Closing a closed queue changes nothing.
    pub fn close(&mut self)
        ensures
            final(self)@ == closed_state(old(self)@),
    {
        self.closed = true;
    }

    /// Whether the queue has been closed.
    pub fn is_closed(&self) -> (r: bool)
        ensures
            r == self@.closed,
    {
        self.closed
    }

    /// The number of pending tasks.
    pub fn len(&self) -> (r: usize)
        ensures
            r == self@.pending.len(),
    {
        self.pending.len()
    }
}

/// Once a queue is closed, every later submission is refused, and closing
/// it again leaves it as it is.
pub proof fn lemma_no_submission_after_close<T>(q: QueueState<T>)
    ensures
        !accepts(closed_state(q)),
        closed_state(closed_state(q)) == closed_state(q),
        closed_state(q).pending == q.pending,
{
}

} // verus!
