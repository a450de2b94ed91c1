use rust_hw::run_queue::RunQueue;
use rust_hw::signal::{NotifyAction, Signal, State, WaitAction};

#[test]
fn signal_starts_empty() {
    let s = Signal::new();
    assert_eq!(s.current(), State::Empty);
    assert!(!s.is_waiting());
}

#[test]
fn signal_notification_before_wait_is_kept() {
    let mut s = Signal::new();
    assert_eq!(s.notify(), NotifyAction::Nothing);
    assert_eq!(s.current(), State::Notified);
    assert_eq!(s.wait(), WaitAction::Proceed);
    assert_eq!(s.current(), State::Empty);
}

#[test]
fn signal_waiter_is_woken_once() {
    let mut s = Signal::new();
    assert_eq!(s.wait(), WaitAction::Block);
    assert!(s.is_waiting());
    assert_eq!(s.notify(), NotifyAction::WakeOne);
    assert_eq!(s.current(), State::Empty);
    assert!(!s.is_waiting());
}

#[test]
fn signal_notify_twice_is_once() {
    let mut s = Signal::new();
    s.notify();
    assert_eq!(s.notify(), NotifyAction::Nothing);
    assert_eq!(s.current(), State::Notified);
    assert_eq!(s.wait(), WaitAction::Proceed);
    assert_eq!(s.wait(), WaitAction::Block);
}

#[test]
fn run_queue_is_first_in_first_out() {
    let mut q = RunQueue::new();
    assert_eq!(q.len(), 0);
    q.push(1);
    q.push(2);
    q.push(3);
    assert_eq!(q.len(), 3);
    assert_eq!(q.pop(), Some(1));
    q.push(4);
    assert_eq!(q.pop(), Some(2));
    assert_eq!(q.pop(), Some(3));
    assert_eq!(q.pop(), Some(4));
    assert_eq!(q.pop(), None);
    assert_eq!(q.len(), 0);
}
