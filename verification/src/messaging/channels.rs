//! The lock-free command channel (ring buffer) from the user interface to
//! the audio thread.

use crate::messaging::command::Command;
use ringbuf::traits::{Producer, Split};
use ringbuf::HeapRb;
use vstd::prelude::*;

verus! {

/// The writing end of a `ringbuf` heap ring buffer of commands.
#[verifier::external_body]
struct RingProducer {
    inner: ringbuf::HeapProd<Command>,
}

/// Sending end of the command channel. Besides the ring buffer it keeps,
/// for proofs only, the commands that went into the channel so far.
pub struct CommandProducer {
    ring: RingProducer,
    sent: Ghost<Seq<Command>>,
}

/// Receiving end of the command channel, read by the audio thread.
#[verifier::external_body]
pub struct CommandConsumer {
    pub inner: ringbuf::HeapCons<Command>,
}

/// The two ends of a ring buffer holding up to `capacity` commands
/// (`HeapRb::new(capacity).split()`; the ring buffer refuses a zero capacity).
#[verifier::external_body]
fn new_ring(capacity: usize) -> (RingProducer, CommandConsumer)
    requires
        capacity > 0,
{
    let (p, c) = HeapRb::<Command>::new(capacity).split();
    (RingProducer { inner: p }, CommandConsumer { inner: c })
}

/// Appends a command (`Producer::try_push`); when the buffer is full the
/// command comes back in the error. Whether it is full depends on the
/// receiving thread, so that is not stated.
#[verifier::external_body]
fn ring_try_push(ring: &mut RingProducer, command: Command) -> (r: Result<(), Command>)
    ensures
        r matches Err(c) ==> c == command,
{
    ring.inner.try_push(command)
}

/// A command channel holding up to `capacity` commands; nothing has been
/// sent on it yet.
pub fn create_command_channel(capacity: usize) -> (r: (CommandProducer, CommandConsumer))
    requires
        capacity > 0,
    ensures
        r.0.spec_sent() == Seq::<Command>::empty(),
{
    let (ring, consumer) = new_ring(capacity);
    (CommandProducer { ring, sent: Ghost(Seq::empty()) }, consumer)
}

impl CommandProducer {
    /// The commands that went into the channel through this end, oldest first.
    pub closed spec fn spec_sent(&self) -> Seq<Command> {
        self.sent@
    }

    /// Appends a command to the channel; when the buffer is full the command
    /// comes back in the error and nothing is sent.
    pub(crate) fn try_push(&mut self, command: Command) -> (r: Result<(), Command>)
        ensures
            match r {
                Ok(()) => final(self).spec_sent() == old(self).spec_sent().push(command),
                Err(c) => c == command && final(self).spec_sent() == old(self).spec_sent(),
            },
    {
        let ghost c = command;
        let r = ring_try_push(&mut self.ring, command);
        if r.is_ok() {
            proof {
                self.sent@ = self.sent@.push(c);
            }
        }
        r
    }
}

} // verus!
