use sandstorm::depth::QueueDepth;
use sandstorm::packet::Packet;
use sandstorm::sched::{RoundRobin, StealTurn};
use sandstorm::task::{Queued, TaskPriority, TaskState};
use std::collections::VecDeque;

fn req(id: u32) -> Queued<u32> {
    Queued::request(id, id, 0)
}

#[test]
fn enqueue_is_fifo() {
    let mut s: RoundRobin<u32> = RoundRobin::new(1, 2, 0);
    for i in 0..3 {
        assert!(s.enqueue(req(i)).is_ok());
    }
    assert_eq!(s.next_task().unwrap().task, 0);
    assert_eq!(s.next_task().unwrap().task, 1);
    assert_eq!(s.next_task().unwrap().task, 2);
    assert!(s.next_task().is_none());
}

#[test]
fn second_dispatch_refused() {
    let mut s: RoundRobin<u32> = RoundRobin::new(0, 0, 0);
    assert!(s.enqueue(Queued::dispatch(0)).is_ok());
    let back = s.enqueue(Queued::dispatch(1)).unwrap_err();
    assert_eq!(back.task, 1);
    assert_eq!(s.len(), 1);
}

#[test]
fn enqueue_many_appends_in_order() {
    let mut s: RoundRobin<u32> = RoundRobin::new(0, 0, 0);
    s.enqueue(Queued::dispatch(0)).unwrap();
    let batch: VecDeque<Queued<u32>> = vec![req(1), req(2)].into_iter().collect();
    assert!(s.enqueue_many(batch).is_ok());
    let all: Vec<u32> = s.dequeue_all().iter().map(|q| q.task).collect();
    assert_eq!(all, vec![0, 1, 2]);
    assert_eq!(s.len(), 0);
}

#[test]
fn enqueue_many_refuses_extra_dispatch() {
    let mut s: RoundRobin<u32> = RoundRobin::new(0, 0, 0);
    s.enqueue(Queued::dispatch(0)).unwrap();
    let batch: VecDeque<Queued<u32>> = vec![req(1), Queued::dispatch(2)].into_iter().collect();
    let back = s.enqueue_many(batch).unwrap_err();
    assert_eq!(back.len(), 2);
    assert_eq!(s.len(), 1);
}

#[test]
fn steal_takes_tail_when_head_is_dispatch() {
    let mut victim: RoundRobin<u32> = RoundRobin::new(0, 1, 0);
    victim.enqueue(Queued::dispatch(10)).unwrap();
    for i in 1..=3 {
        victim.enqueue(req(i)).unwrap();
    }
    let stolen = victim.steal_task().unwrap();
    assert_eq!(stolen.task, 3);
    assert_eq!(stolen.priority, TaskPriority::REQUEST);
    let left: Vec<u32> = victim.dequeue_all().iter().map(|q| q.task).collect();
    assert_eq!(left, vec![10, 1, 2]);
}

#[test]
fn steal_takes_head_request() {
    let mut victim: RoundRobin<u32> = RoundRobin::new(0, 1, 0);
    victim.enqueue(req(1)).unwrap();
    victim.enqueue(Queued::dispatch(10)).unwrap();
    victim.enqueue(req(2)).unwrap();
    assert_eq!(victim.steal_task().unwrap().task, 1);
    assert_eq!(victim.len(), 2);
}

#[test]
fn steal_skips_lone_dispatch() {
    let mut victim: RoundRobin<u32> = RoundRobin::new(0, 1, 0);
    victim.enqueue(Queued::dispatch(10)).unwrap();
    assert!(victim.steal_task().is_none());
    assert_eq!(victim.len(), 1);
}

#[test]
fn heartbeat_never_goes_back() {
    let mut s: RoundRobin<u32> = RoundRobin::new(0, 0, 50);
    assert_eq!(s.latest(), 50);
    s.record_tick(80);
    assert_eq!(s.latest(), 80);
    s.record_tick(60);
    assert_eq!(s.latest(), 80);
}

#[test]
fn compromised_flag_keeps_work() {
    let mut s: RoundRobin<u32> = RoundRobin::new(3, 4, 0);
    s.enqueue(Queued::dispatch(0)).unwrap();
    s.enqueue(req(1)).unwrap();
    s.append_resps(&mut vec![Packet::new(vec![1, 2])]);
    assert!(!s.is_compromised());
    s.compromised();
    assert!(s.is_compromised());
    assert_eq!(s.len(), 2);
    assert_eq!(s.responses().len(), 1);
    assert_eq!(s.thread(), 3);
    assert_eq!(s.core_id(), 4);
}

#[test]
fn staged_response_is_finalized() {
    let mut s: RoundRobin<u32> = RoundRobin::new(0, 0, 0);
    s.stage_response(Packet::new(vec![0u8; 50]));
    let out = s.responses();
    assert_eq!(out.len(), 1);
    assert_eq!(&out[0].data[38..40], &[0, 16]);
    assert_eq!(&out[0].data[16..18], &[0, 36]);
    assert!(s.responses().is_empty());
}

#[test]
fn siblings_are_registered_in_order() {
    let mut s: RoundRobin<u32> = RoundRobin::new(0, 0, 0);
    let mut sibs = vec![4usize, 6];
    s.add_siblings(&mut sibs);
    assert!(sibs.is_empty());
    assert_eq!(s.num_siblings(), 2);
    assert_eq!(s.sibling(1), 6);
}

#[test]
fn idle_turns_alternate() {
    let mut t = StealTurn::new();
    assert_eq!(t.next(1, 3), None);
    assert_eq!(t.next(1, 3), Some(1));
    assert_eq!(t.next(1, 3), None);
    assert_eq!(t.next(1, 3), Some(2));
    assert_eq!(t.next(1, 3), None);
    assert_eq!(t.next(1, 3), Some(0));
    assert_eq!(t.next(4, 3), None);
    assert_eq!(t.next(1, 0), None);
    assert_eq!(t.next(1, 0), None);
}

#[test]
fn queue_depth_accounting() {
    let mut q = QueueDepth::new();
    q.incr_queue_depth(3);
    assert_eq!(q.get_queue_depth(), 3);
    q.decr_queue_depth(2);
    assert_eq!(q.get_queue_depth(), 1);
    q.decr_queue_depth(5);
    assert_eq!(q.get_queue_depth(), 0);
}

#[test]
fn settle_retires_completed_task() {
    let mut s: RoundRobin<u32> = RoundRobin::new(0, 0, 0);
    let request = Packet::new(vec![5u8; 44]);
    let response = Packet::new(vec![0u8; 45]);
    let freed = s.settle(req(1), TaskState::COMPLETED, Some((request, response))).unwrap();
    assert_eq!(freed.unwrap().data, vec![5u8; 44]);
    assert_eq!(s.len(), 0);
    let staged = s.responses();
    assert_eq!(&staged[0].data[38..40], &[0, 11]);
}

#[test]
fn settle_requeues_yielded_task() {
    let mut s: RoundRobin<u32> = RoundRobin::new(0, 0, 0);
    s.enqueue(req(1)).unwrap();
    assert!(s.settle(req(2), TaskState::YIELDED, None).unwrap().is_none());
    assert!(s.settle(Queued::dispatch(3), TaskState::YIELDED, None).unwrap().is_none());
    let back = s.settle(Queued::dispatch(4), TaskState::YIELDED, None).unwrap_err();
    assert_eq!(back.task, 4);
    let order: Vec<u32> = s.dequeue_all().iter().map(|q| q.task).collect();
    assert_eq!(order, vec![1, 2, 3]);
    assert!(s.responses().is_empty());
}
