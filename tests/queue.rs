use rust_pars::task_queue::{Dequeued, TaskQueue};
use rust_pars::worker::{event_of, next_phase, WorkerEvent, WorkerPhase};

fn task_of(d: Dequeued<u32>) -> Option<u32> {
    match d {
        Dequeued::Task(t) => Some(t),
        _ => None,
    }
}

#[test]
fn tasks_come_out_first_in_first_out() {
    let mut q = TaskQueue::new();
    assert_eq!(q.enqueue(1u32), Ok(()));
    assert_eq!(q.enqueue(2), Ok(()));
    assert_eq!(q.enqueue(3), Ok(()));
    assert_eq!(q.len(), 3);
    assert_eq!(task_of(q.dequeue()), Some(1));
    assert_eq!(task_of(q.dequeue()), Some(2));
    assert_eq!(task_of(q.dequeue()), Some(3));
    assert!(matches!(q.dequeue(), Dequeued::Wait));
}

#[test]
fn submission_after_close_is_refused() {
    let mut q = TaskQueue::new();
    assert_eq!(q.enqueue(7u32), Ok(()));
    q.close();
    assert!(q.is_closed());
    assert_eq!(q.enqueue(8), Err(8));
    assert_eq!(q.len(), 1);
}

#[test]
fn closed_queue_is_drained_then_finished() {
    let mut q = TaskQueue::new();
    assert_eq!(q.enqueue(1u32), Ok(()));
    assert_eq!(q.enqueue(2), Ok(()));
    q.close();
    assert_eq!(task_of(q.dequeue()), Some(1));
    assert_eq!(task_of(q.dequeue()), Some(2));
    assert!(matches!(q.dequeue(), Dequeued::Finished));
    assert!(matches!(q.dequeue(), Dequeued::Finished));
}

#[test]
fn closing_twice_is_harmless() {
    let mut q: TaskQueue<u32> = TaskQueue::new();
    q.close();
    q.close();
    assert!(q.is_closed());
    assert!(matches!(q.dequeue(), Dequeued::Finished));
}

#[test]
fn worker_runs_a_task_then_stops() {
    let mut phase = WorkerPhase::Idle;
    phase = next_phase(phase, WorkerEvent::Claimed);
    assert_eq!(phase, WorkerPhase::Executing);
    phase = next_phase(phase, WorkerEvent::Completed);
    assert_eq!(phase, WorkerPhase::Idle);
    phase = next_phase(phase, WorkerEvent::NoMoreWork);
    assert_eq!(phase, WorkerPhase::Terminated);
    assert_eq!(next_phase(phase, WorkerEvent::Claimed), WorkerPhase::Terminated);
}

#[test]
fn events_that_do_not_fit_change_nothing() {
    assert_eq!(next_phase(WorkerPhase::Idle, WorkerEvent::Completed), WorkerPhase::Idle);
    assert_eq!(next_phase(WorkerPhase::Executing, WorkerEvent::Claimed), WorkerPhase::Executing);
    assert_eq!(next_phase(WorkerPhase::Executing, WorkerEvent::NoMoreWork), WorkerPhase::Executing);
}

#[test]
fn queue_answers_become_worker_events() {
    assert_eq!(event_of(&Dequeued::Task(5u32)), Some(WorkerEvent::Claimed));
    assert_eq!(event_of(&Dequeued::<u32>::Wait), None);
    assert_eq!(event_of(&Dequeued::<u32>::Finished), Some(WorkerEvent::NoMoreWork));
}
