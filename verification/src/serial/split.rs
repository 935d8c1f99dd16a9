//! Two serial ports that are joined to each other: what is sent on one is
//! received on the other.

use crate::serial::same_queue;
use crate::serial::Port;
use crate::serial::Refusal;
use crate::serial::WriteError;
use crate::serial::MAX_BUFFER;
use futures::channel::mpsc;
use std::time::Duration;
use vstd::prelude::*;

verus! {

/// One of two serial ports that are joined to each other.
pub struct Split {
    port: Port,
}

/// Two ports that are joined to each other: what either sends, the other
/// receives. A read on either ends when no byte has arrived for `timeout`; each direction is a queue made with the
/// buffer size `buffer_size`.
pub fn new(timeout: Duration, buffer_size: usize) -> (ports: (Split, Split))
    requires
        buffer_size < MAX_BUFFER,
    ensures
        ports.0.link().joined_to(&ports.1.link()),
        ports.0.sent() == Seq::<u8>::empty(),
        ports.1.sent() == Seq::<u8>::empty(),
        ports.0.link().idle_timeout() == timeout,
        ports.1.link().idle_timeout() == timeout,
{
    let (a, b) = Port::pair(timeout, buffer_size);
    (Split { port: a }, Split { port: b })
}

impl Split {
    /// The two queues and the timeout of this port.
    pub closed spec fn link(&self) -> Port {
        self.port
    }

    /// The bytes that this port has put into its queue, in their order.
    pub open spec fn sent(&self) -> Seq<u8> {
        self.link().sent()
    }

    /// Puts the bytes of `src` into the queue in their order, without
    /// waiting, until the queue refuses one. The bytes before the refused
    /// one stay in the queue; the error tells how many they are, and why
    /// the queue refused.
    pub fn try_write(&mut self, src: &[u8]) -> (res: Result<(), WriteError>)
        ensures
            res is Ok ==> final(self).sent() == old(self).sent() + src@,
            res matches Err(e) ==> e.sent < src@.len() && final(self).sent() == old(self).sent()
                + src@.take(e.sent as int),
            res matches Err(e) ==> exists|error: mpsc::TrySendError<u8>|
                e.refusal == #[trigger] Refusal::of(error),
            same_queue(final(self).link().outbox(), old(self).link().outbox()),
            final(self).link().inbox() == old(self).link().inbox(),
            final(self).link().idle_timeout() == old(self).link().idle_timeout(),
    {
        self.port.try_write(src)
    }

    /// The two queues and the timeout of this port, for the task that
    /// reads and writes with waiting. What that task does to them is done
    /// to this port.
    pub fn port(&mut self) -> (port: &mut Port)
        ensures
            *port == old(self).link(),
            final(self).link() == *final(port),
    {
        &mut self.port
    }
}

} // verus!
