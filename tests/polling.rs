use client::polling::{datagram_step, idle_expired, stream_step, DatagramStep, ReadOutcome, StreamStep};

#[test]
fn idle_timeout_expiry() {
    assert!(!idle_expired(100, 150, Some(100)));
    assert!(idle_expired(100, 200, Some(100)));
    assert!(!idle_expired(100, 1_000_000, None));
    assert!(!idle_expired(200, 100, Some(10)));
}

#[test]
fn stream_steps() {
    assert_eq!(stream_step(ReadOutcome::Received(8)), StreamStep::Deliver(8));
    assert_eq!(stream_step(ReadOutcome::Received(0)), StreamStep::PeerClosed);
    assert_eq!(stream_step(ReadOutcome::WouldBlock), StreamStep::Retry);
    assert_eq!(stream_step(ReadOutcome::Failed), StreamStep::Fail);
}

#[test]
fn datagram_steps() {
    assert_eq!(datagram_step(None, ReadOutcome::Received(8)), DatagramStep::Continue(8));
    assert_eq!(datagram_step(Some(8), ReadOutcome::WouldBlock), DatagramStep::Deliver(Some(8)));
    assert_eq!(datagram_step(None, ReadOutcome::WouldBlock), DatagramStep::Deliver(None));
    assert_eq!(datagram_step(Some(1), ReadOutcome::Failed), DatagramStep::Fail);
}
