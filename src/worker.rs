use vstd::prelude::*;

use crate::task_queue::Dequeued;

verus! {

/// Where a worker stands in its life.
#[derive(Clone, Copy, Debug, PartialEq, Eq, Structural)]
pub enum WorkerPhase {
    /// Waiting for the queue to hand it a task.
    Idle,
    /// Running a task it has claimed.
    Executing,
    /// Done for good: the queue is closed and drained.
    Terminated,
}

/// What happens to a worker.
#[derive(Clone, Copy, Debug, PartialEq, Eq, Structural)]
pub enum WorkerEvent {
    /// The queue handed it a task.
    Claimed,
    /// The task it was running has returned, or failed.
    Completed,
    /// The queue told it that no more work will come.
    NoMoreWork,
}

/// The phase a worker in `phase` moves to on `event`. An event that does
/// not fit the phase (a completion while idle, a claim while running)
/// leaves the phase as it is, and a terminated worker stays terminated.
pub fn next_phase(phase: WorkerPhase, event: WorkerEvent) -> (r: WorkerPhase)
    ensures
        phase == WorkerPhase::Idle && event == WorkerEvent::Claimed ==> r == WorkerPhase::Executing,
        phase == WorkerPhase::Idle && event == WorkerEvent::NoMoreWork ==> r
            == WorkerPhase::Terminated,
        phase == WorkerPhase::Executing && event == WorkerEvent::Completed ==> r
            == WorkerPhase::Idle,
        !(phase == WorkerPhase::Idle && event == WorkerEvent::Claimed) && !(phase
            == WorkerPhase::Idle && event == WorkerEvent::NoMoreWork) && !(phase
            == WorkerPhase::Executing && event == WorkerEvent::Completed) ==> r == phase,
{
    match (phase, event) {
        (WorkerPhase::Idle, WorkerEvent::Claimed) => WorkerPhase::Executing,
        (WorkerPhase::Idle, WorkerEvent::NoMoreWork) => WorkerPhase::Terminated,
        (WorkerPhase::Executing, WorkerEvent::Completed) => WorkerPhase::Idle,
        _ => phase,
    }
}

/// The event that an answer of the queue is to a worker: a task is a claim,
/// the end of work is the end; being told to wait is no event.
pub fn event_of<T>(d: &Dequeued<T>) -> (r: Option<WorkerEvent>)
    ensures
        d is Task <==> r == Some(WorkerEvent::Claimed),
        d is Finished <==> r == Some(WorkerEvent::NoMoreWork),
        d is Wait <==> r is None,
{
    match d {
        Dequeued::Task(_) => Some(WorkerEvent::Claimed),
        Dequeued::Wait => None,
        Dequeued::Finished => Some(WorkerEvent::NoMoreWork),
    }
}

} // verus!
