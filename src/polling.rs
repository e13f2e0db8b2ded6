use vstd::prelude::*;
use crate::UnixNano;

verus! {

/// What one non-blocking read of a socket gave.
#[derive(Debug, Clone, Copy, PartialEq, Eq, Structural)]
pub enum ReadOutcome {
    /// This many bytes were read.
    Received(usize),
    /// Nothing was waiting to be read.
    WouldBlock,
    /// The read failed for another reason.
    Failed,
}

/// What a stream receiver does after one read.
#[derive(Debug, Clone, Copy, PartialEq, Eq, Structural)]
pub enum StreamStep {
    /// Hand back this many bytes.
    Deliver(usize),
    /// The peer closed the connection: fail with a reset.
    PeerClosed,
    /// Pass the read's error on.
    Fail,
    /// Read again.
    Retry,
}

/// What a datagram receiver does after one read.
#[derive(Debug, Clone, Copy, PartialEq, Eq, Structural)]
pub enum DatagramStep {
    /// Keep the size of the packet just read and read again, to reach the newest one.
    Continue(usize),
    /// Hand back the size of the last packet read, if any.
    Deliver(Option<usize>),
    /// Pass the read's error on.
    Fail,
}

/// Whether a receiver that started waiting at `start` has been idle for its whole
/// timeout at `now`; without a timeout it waits for ever. A clock that went back
/// counts as no time passed.
pub fn idle_expired(start: UnixNano, now: UnixNano, idle_timeout: Option<UnixNano>) -> (r: bool)
    ensures
        r == (match idle_timeout {
            Some(t) => now >= start && now - start >= t,
            None => false,
        }),
{
    match idle_timeout {
        Some(t) => now >= start && now - start >= t,
        None => false,
    }
}

/// A stream hands data back as soon as it has some; a read of nothing means the peer
/// closed.
pub fn stream_step(outcome: ReadOutcome) -> (r: StreamStep)
    ensures
        r == (match outcome {
            ReadOutcome::Received(n) => if n == 0 {
                StreamStep::PeerClosed
            } else {
                StreamStep::Deliver(n)
            },
            ReadOutcome::WouldBlock => StreamStep::Retry,
            ReadOutcome::Failed => StreamStep::Fail,
        }),
{
    match outcome {
        ReadOutcome::Received(n) => if n == 0 {
            StreamStep::PeerClosed
        } else {
            StreamStep::Deliver(n)
        },
        ReadOutcome::WouldBlock => StreamStep::Retry,
        ReadOutcome::Failed => StreamStep::Fail,
    }
}

/// A datagram socket is drained: each packet read replaces the last, and once none is
/// waiting the size of the last one read is handed back.
pub fn datagram_step(last: Option<usize>, outcome: ReadOutcome) -> (r: DatagramStep)
    ensures
        r == (match outcome {
            ReadOutcome::Received(n) => DatagramStep::Continue(n),
            ReadOutcome::WouldBlock => DatagramStep::Deliver(last),
            ReadOutcome::Failed => DatagramStep::Fail,
        }),
{
    match outcome {
        ReadOutcome::Received(n) => DatagramStep::Continue(n),
        ReadOutcome::WouldBlock => DatagramStep::Deliver(last),
        ReadOutcome::Failed => DatagramStep::Fail,
    }
}

} // verus!
