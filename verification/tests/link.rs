use worker_protocol::channel::Progress;
use worker_protocol::error::ChannelError;
use worker_protocol::link::{DuplexLink, Side};
use worker_protocol::worker::Worker;

#[test]
fn what_one_side_sends_the_other_receives() {
    let mut link = DuplexLink::new();
    assert_eq!(link.send(Side::Coordinator, 5), Ok(Progress::Done(())));
    assert_eq!(link.send(Side::Worker, 9), Ok(Progress::Done(())));
    assert_eq!(link.pending(Side::Worker), 1);
    assert_eq!(link.pending(Side::Coordinator), 1);
    assert_eq!(link.receive(Side::Worker), Ok(Progress::Done(5)));
    assert_eq!(link.receive(Side::Coordinator), Ok(Progress::Done(9)));
}

#[test]
fn no_side_receives_what_it_sent() {
    let mut link = DuplexLink::new();
    assert_eq!(link.send(Side::Coordinator, 5), Ok(Progress::Done(())));
    assert_eq!(link.receive(Side::Coordinator), Ok(Progress::WouldBlock));
    assert_eq!(link.send(Side::Worker, 6), Ok(Progress::Done(())));
    assert_eq!(link.receive(Side::Worker), Ok(Progress::Done(5)));
    assert_eq!(link.receive(Side::Worker), Ok(Progress::WouldBlock));
    assert_eq!(link.receive(Side::Coordinator), Ok(Progress::Done(6)));
}

#[test]
fn each_leg_of_a_bounded_link_has_its_own_room() {
    let mut link = DuplexLink::bounded(1);
    assert_eq!(link.send(Side::Coordinator, 1), Ok(Progress::Done(())));
    assert_eq!(link.send(Side::Coordinator, 2), Ok(Progress::WouldBlock));
    assert_eq!(link.send(Side::Worker, 3), Ok(Progress::Done(())));
    assert_eq!(link.send(Side::Worker, 4), Ok(Progress::WouldBlock));
}

#[test]
fn closing_a_link_closes_both_legs() {
    let mut link = DuplexLink::new();
    assert!(!link.is_closed());
    assert_eq!(link.send(Side::Coordinator, 1), Ok(Progress::Done(())));
    link.close();
    assert!(link.is_closed());
    assert_eq!(link.send(Side::Coordinator, 2), Err(ChannelError::ChannelClosed));
    assert_eq!(link.send(Side::Worker, 2), Err(ChannelError::ChannelClosed));
    assert_eq!(link.receive(Side::Worker), Ok(Progress::Done(1)));
    assert_eq!(link.receive(Side::Worker), Err(ChannelError::ChannelClosed));
    assert_eq!(link.receive(Side::Coordinator), Err(ChannelError::ChannelClosed));
    link.close();
    assert!(link.is_closed());
    assert_eq!(link.receive(Side::Coordinator), Err(ChannelError::ChannelClosed));
}

#[test]
fn a_worker_is_served_on_its_own_side() {
    let mut link = DuplexLink::new();
    let mut worker = Worker::spawn();
    assert_eq!(link.send(Side::Coordinator, 41), Ok(Progress::Done(())));
    assert_eq!(link.send(Side::Worker, 1000), Ok(Progress::Done(())));
    link.serve(&mut worker);
    assert_eq!(worker, Worker::Running { in_flight: None });
    assert_eq!(link.pending(Side::Worker), 0);
    assert_eq!(link.receive(Side::Coordinator), Ok(Progress::Done(1000)));
    assert_eq!(link.receive(Side::Coordinator), Ok(Progress::Done(42)));
    assert_eq!(link.receive(Side::Coordinator), Ok(Progress::WouldBlock));
}

#[test]
fn a_worker_is_served_one_pass_at_a_time() {
    let mut link = DuplexLink::new();
    let mut worker = Worker::spawn();
    assert_eq!(link.send(Side::Coordinator, 1), Ok(Progress::Done(())));
    assert_eq!(link.send(Side::Coordinator, 0), Ok(Progress::Done(())));
    assert!(link.serve_once(&mut worker));
    assert_eq!(worker, Worker::Running { in_flight: None });
    assert_eq!(link.pending(Side::Coordinator), 1);
    assert!(!link.serve_once(&mut worker));
    assert_eq!(worker, Worker::Terminated { outcome: Ok(()) });
    assert!(link.is_closed());
    assert_eq!(link.receive(Side::Coordinator), Ok(Progress::Done(2)));
    assert_eq!(link.receive(Side::Coordinator), Ok(Progress::Done(1)));
    assert_eq!(link.receive(Side::Coordinator), Err(ChannelError::ChannelClosed));
}
