use worker_protocol::channel::{ChannelHalf, Progress};
use worker_protocol::error::ChannelError;
use worker_protocol::increment;
use worker_protocol::worker::{plus_one, Worker, SENTINEL};

fn filled(messages: &[i64]) -> ChannelHalf {
    let mut channel = ChannelHalf::new();
    for msg in messages {
        assert_eq!(channel.send(*msg), Ok(Progress::Done(())));
    }
    channel
}

fn drained(channel: &mut ChannelHalf) -> Vec<i64> {
    let mut messages = Vec::new();
    while let Ok(Progress::Done(msg)) = channel.receive() {
        messages.push(msg);
    }
    messages
}

#[test]
fn plus_one_adds_one() {
    assert_eq!(increment::plus_one(&10), 11);
    assert_eq!(increment::plus_one(&0), 1);
    assert_eq!(increment::plus_one(&-1), 0);
    assert_eq!(increment::plus_one(&i64::MIN), i64::MIN + 1);
    assert_eq!(increment::plus_one(&(i64::MAX - 1)), i64::MAX);
}

#[test]
fn plus_one_wraps_at_the_largest_integer() {
    assert_eq!(increment::plus_one(&i64::MAX), i64::MIN);
}

#[test]
fn the_sentinel_is_zero() {
    assert_eq!(SENTINEL, 0);
}

#[test]
fn the_worker_answers_each_request_and_stops_after_the_sentinel() {
    let mut sender = ChannelHalf::new();
    let mut receiver = filled(&[22, 23, 24, 24, 0]);
    let worker = plus_one(&mut sender, &mut receiver);
    assert_eq!(worker, Worker::Terminated { outcome: Ok(()) });
    assert!(worker.is_terminated());
    assert!(sender.is_closed());
    assert!(receiver.is_closed());
    assert!(receiver.is_empty());
    assert_eq!(drained(&mut sender), vec![23, 24, 25, 25, 1]);
    assert_eq!(sender.receive(), Err(ChannelError::ChannelClosed));
}

#[test]
fn the_sentinel_alone_is_answered_with_one() {
    let mut sender = ChannelHalf::new();
    let mut receiver = filled(&[0]);
    let worker = plus_one(&mut sender, &mut receiver);
    assert_eq!(worker, Worker::Terminated { outcome: Ok(()) });
    assert_eq!(drained(&mut sender), vec![1]);
}

#[test]
fn what_follows_the_sentinel_is_left_alone() {
    let mut sender = ChannelHalf::new();
    let mut receiver = filled(&[3, 0, 7, 0]);
    let worker = plus_one(&mut sender, &mut receiver);
    assert_eq!(worker, Worker::Terminated { outcome: Ok(()) });
    assert_eq!(drained(&mut sender), vec![4, 1]);
    assert!(receiver.is_closed());
    assert_eq!(drained(&mut receiver), vec![7, 0]);
}

#[test]
fn a_worker_without_requests_waits() {
    let mut sender = ChannelHalf::new();
    let mut receiver = ChannelHalf::new();
    let mut worker = plus_one(&mut sender, &mut receiver);
    assert_eq!(worker, Worker::Running { in_flight: None });
    assert!(!worker.is_terminated());
    assert!(!sender.is_closed());
    assert!(!receiver.is_closed());
    assert!(sender.is_empty());
    assert_eq!(receiver.send(5), Ok(Progress::Done(())));
    worker.run(&mut sender, &mut receiver);
    assert_eq!(worker, Worker::Running { in_flight: None });
    assert_eq!(sender.receive(), Ok(Progress::Done(6)));
    assert_eq!(receiver.send(0), Ok(Progress::Done(())));
    worker.run(&mut sender, &mut receiver);
    assert_eq!(worker, Worker::Terminated { outcome: Ok(()) });
    assert_eq!(sender.receive(), Ok(Progress::Done(1)));
    assert_eq!(sender.receive(), Err(ChannelError::ChannelClosed));
}

#[test]
fn a_closed_receiver_ends_the_worker_prematurely() {
    let mut sender = ChannelHalf::new();
    let mut receiver = filled(&[8, 9]);
    receiver.close();
    let worker = plus_one(&mut sender, &mut receiver);
    assert_eq!(worker, Worker::Terminated { outcome: Err(ChannelError::PrematureClosure) });
    assert!(sender.is_closed());
    assert_eq!(drained(&mut sender), vec![9, 10]);
    assert!(receiver.is_empty());
}

#[test]
fn the_sentinel_before_the_closure_ends_the_worker_normally() {
    let mut sender = ChannelHalf::new();
    let mut receiver = filled(&[8, 0]);
    receiver.close();
    let worker = plus_one(&mut sender, &mut receiver);
    assert_eq!(worker, Worker::Terminated { outcome: Ok(()) });
    assert_eq!(drained(&mut sender), vec![9, 1]);
}

#[test]
fn a_closed_sender_loses_the_response_in_flight() {
    let mut sender = filled(&[100]);
    sender.close();
    let mut receiver = filled(&[5, 6]);
    let worker = plus_one(&mut sender, &mut receiver);
    assert_eq!(worker, Worker::Terminated { outcome: Err(ChannelError::PrematureClosure) });
    assert_eq!(drained(&mut sender), vec![100]);
    assert!(receiver.is_closed());
    assert_eq!(drained(&mut receiver), vec![6]);
}

#[test]
fn a_closed_sender_is_noticed_only_with_a_request_in_hand() {
    let mut sender = ChannelHalf::new();
    sender.close();
    let mut receiver = ChannelHalf::new();
    let mut worker = plus_one(&mut sender, &mut receiver);
    assert_eq!(worker, Worker::Running { in_flight: None });
    assert!(!receiver.is_closed());
    assert_eq!(receiver.send(1), Ok(Progress::Done(())));
    assert!(!worker.step(&mut sender, &mut receiver));
    assert_eq!(worker, Worker::Terminated { outcome: Err(ChannelError::PrematureClosure) });
    assert!(receiver.is_closed());
    assert!(receiver.is_empty());
    assert!(sender.is_empty());
}

#[test]
fn a_full_sender_keeps_the_request_in_flight() {
    let mut sender = ChannelHalf::bounded(1);
    let mut receiver = filled(&[5, 6, 8, 0]);
    let mut worker = plus_one(&mut sender, &mut receiver);
    assert_eq!(worker, Worker::Running { in_flight: Some(6) });
    assert_eq!(sender.len(), 1);
    assert_eq!(receiver.len(), 2);
    worker.run(&mut sender, &mut receiver);
    assert_eq!(worker, Worker::Running { in_flight: Some(6) });
    assert_eq!(receiver.len(), 2);
    assert_eq!(sender.receive(), Ok(Progress::Done(6)));
    worker.run(&mut sender, &mut receiver);
    assert_eq!(worker, Worker::Running { in_flight: Some(8) });
    assert_eq!(sender.receive(), Ok(Progress::Done(7)));
    worker.run(&mut sender, &mut receiver);
    assert_eq!(worker, Worker::Running { in_flight: Some(0) });
    assert!(!sender.is_closed());
    assert_eq!(sender.receive(), Ok(Progress::Done(9)));
    worker.run(&mut sender, &mut receiver);
    assert_eq!(worker, Worker::Terminated { outcome: Ok(()) });
    assert_eq!(sender.receive(), Ok(Progress::Done(1)));
    assert_eq!(sender.receive(), Err(ChannelError::ChannelClosed));
}

#[test]
fn a_sender_closed_while_a_request_is_in_flight_ends_the_worker() {
    let mut sender = ChannelHalf::bounded(0);
    let mut receiver = filled(&[5, 6]);
    let mut worker = plus_one(&mut sender, &mut receiver);
    assert_eq!(worker, Worker::Running { in_flight: Some(5) });
    sender.close();
    worker.run(&mut sender, &mut receiver);
    assert_eq!(worker, Worker::Terminated { outcome: Err(ChannelError::PrematureClosure) });
    assert_eq!(drained(&mut receiver), vec![6]);
    assert!(sender.is_empty());
}

#[test]
fn one_pass_answers_one_request() {
    let mut sender = ChannelHalf::new();
    let mut receiver = filled(&[1, 2]);
    let mut worker = Worker::spawn();
    assert_eq!(worker, Worker::Spawned);
    assert!(worker.step(&mut sender, &mut receiver));
    assert_eq!(worker, Worker::Running { in_flight: None });
    assert_eq!(sender.len(), 1);
    assert_eq!(receiver.len(), 1);
    assert!(worker.step(&mut sender, &mut receiver));
    assert!(!worker.step(&mut sender, &mut receiver));
    assert_eq!(worker, Worker::Running { in_flight: None });
    assert_eq!(drained(&mut sender), vec![2, 3]);
}

#[test]
fn a_terminated_worker_touches_nothing() {
    let mut sender = ChannelHalf::new();
    let mut receiver = filled(&[4]);
    let mut worker = Worker::Terminated { outcome: Ok(()) };
    assert!(!worker.step(&mut sender, &mut receiver));
    worker.run(&mut sender, &mut receiver);
    assert_eq!(worker, Worker::Terminated { outcome: Ok(()) });
    assert!(sender.is_empty());
    assert!(!sender.is_closed());
    assert_eq!(receiver.len(), 1);
    assert!(!receiver.is_closed());
}

#[test]
fn the_worker_wraps_around_at_the_largest_integer() {
    let mut sender = ChannelHalf::new();
    let mut receiver = filled(&[i64::MAX, -1, i64::MIN]);
    let worker = plus_one(&mut sender, &mut receiver);
    assert_eq!(worker, Worker::Running { in_flight: None });
    assert_eq!(drained(&mut sender), vec![i64::MIN, 0, i64::MIN + 1]);
}
