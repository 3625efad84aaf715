use std::cell::Cell;
use std::rc::Rc;

use mapserver::dispatch::DispatchQueue;
use mapserver::roster::Roster;
use mapserver::worker::WorkerState;
use mapserver::Message;

type Job = Box<dyn FnOnce()>;

/// Lets worker `w` take the next directive, if any, and run what it hands
/// back. Returns false when the queue was empty.
fn deliver(queue: &mut DispatchQueue<Job>, worker: &mut WorkerState) -> bool {
    match queue.receive() {
        Some(message) => {
            if let Some(job) = worker.handle(message) {
                job();
            }
            true
        }
        None => false,
    }
}

fn counting_job(counter: &Rc<Cell<u32>>) -> Job {
    let counter = Rc::clone(counter);
    Box::new(move || counter.set(counter.get() + 1))
}

#[test]
fn roster_ids_start_at_one() {
    let roster = Roster::new(4);
    assert_eq!(roster.worker_count(), 4);
    let ids: Vec<usize> = (0..4).map(|i| roster.id_at(i)).collect();
    assert_eq!(ids, vec![1, 2, 3, 4]);
    assert!(!roster.all_joined());
    assert_eq!(roster.next_to_join(), Some(0));
}

#[test]
fn shutdown_targets_named_or_all() {
    let roster = Roster::new(3);
    assert_eq!(roster.shutdown_targets(Some(2)), vec![2]);
    assert_eq!(roster.shutdown_targets(None), vec![1, 2, 3]);
}

#[test]
fn queue_is_first_in_first_out() {
    let mut queue: DispatchQueue<u32> = DispatchQueue::new();
    assert!(queue.is_empty());
    queue.send(Message::Job(7));
    queue.send(Message::Shutdown(2));
    queue.send(Message::Job(9));
    assert_eq!(queue.len(), 3);
    assert!(matches!(queue.receive(), Some(Message::Job(7))));
    assert!(matches!(queue.receive(), Some(Message::Shutdown(2))));
    assert!(matches!(queue.receive(), Some(Message::Job(9))));
    assert!(queue.receive().is_none());
}

#[test]
fn each_job_runs_exactly_once() {
    let runs: Vec<Rc<Cell<u32>>> = (0..6).map(|_| Rc::new(Cell::new(0))).collect();
    let mut queue: DispatchQueue<Job> = DispatchQueue::new();
    for r in &runs {
        queue.send(Message::Job(counting_job(r)));
    }
    let mut workers = vec![WorkerState::new(1), WorkerState::new(2)];
    let mut turn = 0;
    while deliver(&mut queue, &mut workers[turn % 2]) {
        turn += 1;
    }
    assert_eq!(turn, 6);
    for r in &runs {
        assert_eq!(r.get(), 1);
    }
}

#[test]
fn single_worker_starts_jobs_in_order() {
    let log = Rc::new(std::cell::RefCell::new(Vec::new()));
    let mut queue: DispatchQueue<Job> = DispatchQueue::new();
    for k in 0..5u32 {
        let log = Rc::clone(&log);
        queue.send(Message::Job(Box::new(move || log.borrow_mut().push(k))));
    }
    let mut worker = WorkerState::new(1);
    while deliver(&mut queue, &mut worker) {}
    assert_eq!(*log.borrow(), vec![0, 1, 2, 3, 4]);
}

#[test]
fn targeted_shutdown_of_single_worker() {
    let mut roster = Roster::new(1);
    let mut queue: DispatchQueue<Job> = DispatchQueue::new();
    roster.enqueue_shutdown(&mut queue, Some(1));
    assert_eq!(queue.len(), 1);
    let mut worker = WorkerState::new(roster.id_at(0));
    assert!(deliver(&mut queue, &mut worker));
    assert!(worker.is_terminated());
    assert_eq!(roster.next_to_join(), Some(0));
    roster.mark_joined(0);
    assert!(roster.all_joined());
    assert_eq!(roster.next_to_join(), None);
}

#[test]
fn misrouted_shutdown_is_lost() {
    let roster = Roster::new(2);
    let mut queue: DispatchQueue<Job> = DispatchQueue::new();
    // worker 1 is busy; worker 2 is idle and wins the directive meant for 1
    let mut busy = WorkerState::new(1);
    let mut idle = WorkerState::new(2);
    roster.enqueue_shutdown(&mut queue, Some(1));
    assert!(deliver(&mut queue, &mut idle));
    assert!(!idle.is_terminated());
    assert!(queue.is_empty());
    assert!(!deliver(&mut queue, &mut busy));
    assert!(!busy.is_terminated());
}

#[test]
fn broadcast_shutdown_sends_one_directive_per_worker() {
    let roster = Roster::new(4);
    let mut queue: DispatchQueue<u8> = DispatchQueue::new();
    roster.enqueue_shutdown(&mut queue, None);
    assert_eq!(queue.len(), 4);
    for id in 1..=4usize {
        match queue.receive() {
            Some(Message::Shutdown(target)) => assert_eq!(target, id),
            _ => panic!("expected a stop directive for worker {}", id),
        }
    }
    assert!(queue.receive().is_none());
}

#[test]
fn joins_follow_creation_order() {
    let mut roster = Roster::new(3);
    let mut order = Vec::new();
    while let Some(i) = roster.next_to_join() {
        order.push(i);
        roster.mark_joined(i);
    }
    assert_eq!(order, vec![0, 1, 2]);
    assert!(roster.all_joined());
}

#[test]
fn three_workers_five_increments() {
    let counter = Rc::new(Cell::new(0u32));
    let mut roster = Roster::new(3);
    let mut queue: DispatchQueue<Job> = DispatchQueue::new();
    for _ in 0..5 {
        queue.send(Message::Job(counting_job(&counter)));
    }
    roster.enqueue_shutdown(&mut queue, None);
    let mut workers: Vec<WorkerState> = (0..3).map(|i| WorkerState::new(roster.id_at(i))).collect();
    // jobs go round the workers; each stop directive is taken by the worker it names
    let mut turn = 0;
    while queue.len() > 3 {
        assert!(deliver(&mut queue, &mut workers[turn % 3]));
        turn += 1;
    }
    for w in workers.iter_mut() {
        assert!(deliver(&mut queue, w));
        assert!(w.is_terminated());
    }
    while let Some(i) = roster.next_to_join() {
        roster.mark_joined(i);
    }
    assert_eq!(counter.get(), 5);
    assert!(roster.all_joined());
}

#[test]
fn empty_pool_has_nothing_to_join() {
    let roster = Roster::new(0);
    assert_eq!(roster.worker_count(), 0);
    assert!(roster.all_joined());
    assert_eq!(roster.shutdown_targets(None), Vec::<usize>::new());
}

#[test]
fn message_descriptions() {
    let stop: Message<Job> = Message::Shutdown(12);
    let job: Message<Job> = Message::Job(Box::new(|| {}));
    assert_eq!(stop.describe(), "Shutdown(12)");
    assert_eq!(job.describe(), "Job(<FnOnce>)");
}

#[test]
fn worker_ignores_jobs_for_termination() {
    let mut worker = WorkerState::new(5);
    let r = worker.handle(Message::Job(3u8));
    assert_eq!(r, Some(3));
    assert!(!worker.is_terminated());
    assert_eq!(worker.handle(Message::<u8>::Shutdown(4)), None);
    assert!(!worker.is_terminated());
    assert_eq!(worker.handle(Message::<u8>::Shutdown(5)), None);
    assert!(worker.is_terminated());
    assert_eq!(worker.id, 5);
}
