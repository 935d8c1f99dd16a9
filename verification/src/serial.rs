//! A simulated serial link: two ports joined by one bounded queue of bytes
//! for each direction. A reader frames what arrives by the pauses between
//! the bytes.

use futures::channel::mpsc;
use std::time::Duration;
use vstd::prelude::*;

pub mod split;

verus! {

/// `futures::channel::mpsc::Sender`, the end of a bounded queue that fills
/// it; opaque here.
#[verifier::external_type_specification]
#[verifier::external_body]
#[verifier::reject_recursive_types(T)]
pub struct ExSender<T>(mpsc::Sender<T>);

/// `futures::channel::mpsc::Receiver`, the end of a bounded queue that
/// empties it; opaque here.
#[verifier::external_type_specification]
#[verifier::external_body]
#[verifier::reject_recursive_types(T)]
pub struct ExReceiver<T>(mpsc::Receiver<T>);

/// `futures::channel::mpsc::TrySendError`, the refusal of a value by a
/// queue; opaque here.
#[verifier::external_type_specification]
#[verifier::external_body]
#[verifier::reject_recursive_types(T)]
pub struct ExTrySendError<T>(mpsc::TrySendError<T>);

/// The least size of buffer that a queue cannot be made with.
pub const MAX_BUFFER: usize = usize::MAX / 4;

/// The bytes that a sender has put into its queue since the queue was
/// made, in their order.
pub uninterp spec fn enqueued(sender: mpsc::Sender<u8>) -> Seq<u8>;

/// Whether what `sender` puts into its queue is what `receiver` takes out:
/// whether the two are ends of one queue. It is what
/// `futures::channel::mpsc::Sender::is_connected_to` tells.
pub uninterp spec fn feeds(sender: mpsc::Sender<u8>, receiver: mpsc::Receiver<u8>) -> bool;

/// Whether two states of a sender are ends of the same queue.
pub open spec fn same_queue(sender: mpsc::Sender<u8>, before: mpsc::Sender<u8>) -> bool {
    forall|receiver: mpsc::Receiver<u8>| #[trigger]
        feeds(sender, receiver) == feeds(before, receiver)
}

/// `futures::channel::mpsc::channel`: a bounded queue of bytes, as its two
/// ends. It refuses, by a panic, a buffer of a quarter of the address space
/// or more. The sender feeds the receiver, and nothing has been put into a
/// new queue.
#[verifier::external_body]
fn byte_channel(buffer: usize) -> (ends: (mpsc::Sender<u8>, mpsc::Receiver<u8>))
    requires
        buffer < MAX_BUFFER,
    ensures
        feeds(ends.0, ends.1),
        enqueued(ends.0) == Seq::<u8>::empty(),
{
    mpsc::channel(buffer)
}

/// `futures::channel::mpsc::Sender::try_send`: puts `byte` behind what the
/// queue holds, without waiting, or hands it back in an error and leaves
/// the queue alone. Which of the two happens depends on what the other end
/// has taken out, so nothing is claimed of that. Either way the sender
/// stays an end of the queue that it was an end of.
#[verifier::external_body]
fn try_send_byte(sender: &mut mpsc::Sender<u8>, byte: u8) -> (sent: Result<
    (),
    mpsc::TrySendError<u8>,
>)
    ensures
        sent is Ok ==> enqueued(*final(sender)) == enqueued(*old(sender)).push(byte),
        sent is Err ==> enqueued(*final(sender)) == enqueued(*old(sender)),
        same_queue(*final(sender), *old(sender)),
{
    sender.try_send(byte)
}

/// Whether `error` refuses a byte for want of room in the queue, and not
/// because the receiver is gone.
pub uninterp spec fn for_want_of_room(error: mpsc::TrySendError<u8>) -> bool;

/// `futures::channel::mpsc::TrySendError::is_full`: whether the byte was
/// refused for want of room, and not because the receiver is gone. The
/// error alone decides it.
#[verifier::external_body]
fn refused_as_full(error: &mpsc::TrySendError<u8>) -> (full: bool)
    ensures
        full == for_want_of_room(*error),
{
    error.is_full()
}

/// Why a queue refused a byte.
#[derive(Clone, Copy, Debug, PartialEq, Eq, Structural)]
pub enum Refusal {
    /// The queue is full.
    Full,
    /// The port at the other end is gone.
    Closed,
}

impl Refusal {
    /// The refusal that `error` stands for.
    pub open spec fn of(error: mpsc::TrySendError<u8>) -> Refusal {
        if for_want_of_room(error) {
            Refusal::Full
        } else {
            Refusal::Closed
        }
    }
}

/// A write without waiting that the queue cut short. The first `sent`
/// bytes are in the queue and stay there; the byte behind them was
/// refused, and it and the bytes after it were not sent.
#[derive(Clone, Copy, Debug, PartialEq, Eq, Structural)]
pub struct WriteError {
    pub sent: usize,
    pub refusal: Refusal,
}

/// One end of a link: the queue that it fills, the queue that it empties,
/// and the pause that ends a frame.
pub struct Port {
    rx: mpsc::Receiver<u8>,
    tx: mpsc::Sender<u8>,
    timeout: Duration,
}

impl Port {
    /// The end of the queue that this port fills.
    pub closed spec fn outbox(&self) -> mpsc::Sender<u8> {
        self.tx
    }

    /// The bytes that this port has put into its queue, in their order.
    pub open spec fn sent(&self) -> Seq<u8> {
        enqueued(self.outbox())
    }

    /// Whether this port and `other` are the two ends of one link: what
    /// each sends is what the other receives.
    pub open spec fn joined_to(&self, other: &Port) -> bool {
        feeds(self.outbox(), other.inbox()) && feeds(other.outbox(), self.inbox())
    }

    /// The pause without a byte that ends a frame read on this port.
    pub closed spec fn idle_timeout(&self) -> Duration {
        self.timeout
    }

    /// The end of the queue that this port empties.
    pub closed spec fn inbox(&self) -> mpsc::Receiver<u8> {
        self.rx
    }

    /// The two ends of a link whose queues are made with the buffer size
    /// `buffer_size` each: what either sends, the other receives. Neither
    /// has sent anything, and both frame by `timeout`.
    pub fn pair(timeout: Duration, buffer_size: usize) -> (ports: (Port, Port))
        requires
            buffer_size < MAX_BUFFER,
        ensures
            ports.0.joined_to(&ports.1),
            ports.0.sent() == Seq::<u8>::empty(),
            ports.1.sent() == Seq::<u8>::empty(),
            ports.0.idle_timeout() == timeout,
            ports.1.idle_timeout() == timeout,
    {
        let (rx_sender, rx_receiver) = byte_channel(buffer_size);
        let (tx_sender, tx_receiver) = byte_channel(buffer_size);
        (
            Port { rx: rx_receiver, tx: tx_sender, timeout },
            Port { rx: tx_receiver, tx: rx_sender, timeout },
        )
    }

    /// Puts the bytes of `src` into the queue in their order, without
    /// waiting, until the queue refuses one. The bytes before the refused
    /// one stay in the queue; the error tells how many they are, and why
    /// the queue refused.
    pub fn try_write(&mut self, src: &[u8]) -> (res: Result<(), WriteError>)
        ensures
            res is Ok ==> final(self).sent() == old(self).sent() + src@,
            res matches Err(e) ==> e.sent < src@.len() && final(self).sent() == old(self).sent()
                + src@.take(e.sent as int),
            res matches Err(e) ==> exists|error: mpsc::TrySendError<u8>|
                e.refusal == #[trigger] Refusal::of(error),
            same_queue(final(self).outbox(), old(self).outbox()),
            final(self).inbox() == old(self).inbox(),
            final(self).idle_timeout() == old(self).idle_timeout(),
    {
        let mut i: usize = 0;
        while i < src.len()
            invariant
                i <= src@.len(),
                self.sent() == old(self).sent() + src@.take(i as int),
                same_queue(self.outbox(), old(self).outbox()),
                self.inbox() == old(self).inbox(),
                self.idle_timeout() == old(self).idle_timeout(),
            decreases src@.len() - i,
        {
            proof {
                assert(src@.take(i + 1) =~= src@.take(i as int).push(src@[i as int]));
                assert(old(self).sent() + src@.take(i as int).push(src@[i as int]) =~= (old(
                    self,
                ).sent() + src@.take(i as int)).push(src@[i as int]));
            }
            match try_send_byte(&mut self.tx, src[i]) {
                Ok(()) => {},
                Err(error) => {
                    let refused = refused_at(i, refused_as_full(&error));
                    assert(refused.refusal == Refusal::of(error));
                    return Err(refused);
                },
            }
            i += 1;
        }
        assert(src@.take(i as int) =~= src@);
        Ok(())
    }

    /// The pause without a byte that ends a frame: the timeout that the
    /// link was made with.
    pub fn timeout(&self) -> (timeout: Duration)
        ensures
            timeout == self.idle_timeout(),
    {
        self.timeout
    }

    /// The end of the queue that this port empties, for the task that
    /// awaits its bytes. What that task does to it is done to the port;
    /// the rest of the port is left alone.
    pub fn receiver(&mut self) -> (rx: &mut mpsc::Receiver<u8>)
        ensures
            *rx == old(self).inbox(),
            final(self).inbox() == *final(rx),
            final(self).outbox() == old(self).outbox(),
            final(self).idle_timeout() == old(self).idle_timeout(),
    {
        &mut self.rx
    }

    /// The end of the queue that this port fills, for the task that waits
    /// for room in it. What that task puts into the queue counts as sent
    /// by the port; the rest of the port is left alone.
    pub fn sender(&mut self) -> (tx: &mut mpsc::Sender<u8>)
        ensures
            *tx == old(self).outbox(),
            final(self).outbox() == *final(tx),
            final(self).inbox() == old(self).inbox(),
            final(self).idle_timeout() == old(self).idle_timeout(),
    {
        &mut self.tx
    }
}

/// The error of a write that was cut short after `sent` bytes, by a full
/// queue if `full` and else by a closed one.
pub fn refused_at(sent: usize, full: bool) -> (error: WriteError)
    ensures
        error.sent == sent,
        error.refusal == if full {
            Refusal::Full
        } else {
            Refusal::Closed
        },
{
    WriteError {
        sent,
        refusal: if full {
            Refusal::Full
        } else {
            Refusal::Closed
        },
    }
}

/// What a reader that waits on the line gets next.
#[derive(Clone, Copy, Debug, PartialEq, Eq, Structural)]
pub enum LineEvent {
    /// A byte arrived before the line had been idle for the timeout.
    Byte(u8),
    /// The line stayed idle for the timeout.
    Idle,
}

/// The events that stand for `bytes` arriving in one burst, with no pause
/// as long as the timeout between them.
pub open spec fn burst(bytes: Seq<u8>) -> Seq<LineEvent> {
    Seq::new(bytes.len(), |i: int| LineEvent::Byte(bytes[i]))
}

/// The bytes that one read collects from `events` into a buffer with room
/// for `room` bytes: those that arrive before the first pause, as far as
/// the buffer has room for them.
pub open spec fn frame(events: Seq<LineEvent>, room: nat) -> Seq<u8>
    decreases events.len(),
{
    if room == 0 || events.len() == 0 {
        Seq::empty()
    } else {
        match events[0] {
            LineEvent::Byte(byte) => seq![byte] + frame(events.drop_first(), (room - 1) as nat),
            LineEvent::Idle => Seq::empty(),
        }
    }
}

/// The number of events that one read takes from `events`: the bytes that
/// it collects, and the pause that ends it if the buffer did not fill up
/// before.
pub open spec fn frame_events(events: Seq<LineEvent>, room: nat) -> nat
    decreases events.len(),
{
    if room == 0 || events.len() == 0 {
        0
    } else {
        match events[0] {
            LineEvent::Byte(_) => 1 + frame_events(events.drop_first(), (room - 1) as nat),
            LineEvent::Idle => 1,
        }
    }
}

/// What a reader does after an event.
#[derive(Clone, Copy, Debug, PartialEq, Eq, Structural)]
pub enum ReadStep {
    /// Wait for the next byte or for the timeout, whichever comes first.
    Wait,
    /// Return: the read has collected this many bytes.
    Done(usize),
}

/// One read that frames by idle time, as far as it has come: the number of
/// bytes that it has stored at the front of the reader's buffer, and
/// whether a pause has ended it.
#[derive(Clone, Copy, Debug)]
pub struct IdleRead {
    filled: usize,
    idle: bool,
}

impl IdleRead {
    /// The number of bytes collected.
    pub closed spec fn filled(&self) -> nat {
        self.filled as nat
    }

    /// Whether a pause has ended the read.
    pub closed spec fn ended(&self) -> bool {
        self.idle
    }

    /// What the reader does next in a read that stands at `filled` bytes of
    /// `room`: it returns once a pause was seen or the buffer is full, and
    /// waits until then.
    pub open spec fn step_of(filled: nat, ended: bool, room: nat) -> ReadStep {
        if ended || filled >= room {
            ReadStep::Done(filled as usize)
        } else {
            ReadStep::Wait
        }
    }

    /// Whether the read, with a buffer of `room` bytes, still waits for
    /// an event.
    pub open spec fn waits(&self, room: nat) -> bool {
        Self::step_of(self.filled(), self.ended(), room) is Wait
    }

    /// A read that has collected nothing.
    pub fn new() -> (read: Self)
        ensures
            read.filled() == 0,
            !read.ended(),
    {
        Self { filled: 0, idle: false }
    }

    /// What the reader does next, with `dst` as its buffer.
    pub fn step(&self, dst: &[u8]) -> (step: ReadStep)
        ensures
            step == Self::step_of(self.filled(), self.ended(), dst@.len()),
    {
        if self.idle || self.filled >= dst.len() {
            ReadStep::Done(self.filled)
        } else {
            ReadStep::Wait
        }
    }

    /// Takes `event` into a read that waits: a byte is stored behind those
    /// collected so far, a pause ends the read. A read that is over takes
    /// nothing more and leaves `dst` as it is.
    pub fn on_event(&mut self, dst: &mut [u8], event: LineEvent) -> (step: ReadStep)
        ensures
            final(dst)@.len() == old(dst)@.len(),
            step == Self::step_of(final(self).filled(), final(self).ended(), old(dst)@.len()),
            old(self).waits(old(dst)@.len()) ==> match event {
                LineEvent::Byte(byte) => {
                    &&& final(self).filled() == old(self).filled() + 1
                    &&& !final(self).ended()
                    &&& final(dst)@ == old(dst)@.update(old(self).filled() as int, byte)
                },
                LineEvent::Idle => {
                    &&& final(self).filled() == old(self).filled()
                    &&& final(self).ended()
                    &&& final(dst)@ == old(dst)@
                },
            },
            !old(self).waits(old(dst)@.len()) ==> {
                &&& final(self).filled() == old(self).filled()
                &&& final(self).ended() == old(self).ended()
                &&& final(dst)@ == old(dst)@
            },
    {
        if !self.idle && self.filled < dst.len() {
            match event {
                LineEvent::Byte(byte) => {
                    dst[self.filled] = byte;
                    self.filled += 1;
                },
                LineEvent::Idle => {
                    self.idle = true;
                },
            }
        }
        self.step(dst)
    }

    /// Reads one frame from recorded `events` into `dst`, as a reader on a
    /// live line would from the same events. Returns the number of bytes
    /// collected and the number of events taken. The bytes stand at the
    /// front of `dst`; the rest of `dst` is as it was.
    pub fn replay(events: &[LineEvent], dst: &mut [u8]) -> (res: (usize, usize))
        ensures
            final(dst)@.len() == old(dst)@.len(),
            res.0 == frame(events@, old(dst)@.len()).len(),
            res.0 <= old(dst)@.len(),
            final(dst)@.take(res.0 as int) == frame(events@, old(dst)@.len()),
            final(dst)@.skip(res.0 as int) == old(dst)@.skip(res.0 as int),
            res.1 == frame_events(events@, old(dst)@.len()),
            res.1 <= events@.len(),
    {
        let mut read = IdleRead::new();
        let mut taken: usize = 0;
        let mut step = read.step(dst);
        let ghost room = dst@.len();
        proof {
            assert(events@.skip(0) =~= events@);
            assert(dst@.take(0) + frame(events@, room) =~= frame(events@, room));
        }
        while step == ReadStep::Wait && taken < events.len()
            invariant
                dst@.len() == room,
                room == old(dst)@.len(),
                taken <= events@.len(),
                step == Self::step_of(read.filled(), read.ended(), room),
                read.filled() <= room,
                !read.ended() ==> read.filled() == taken,
                read.ended() ==> read.filled() + 1 == taken,
                dst@.skip(read.filled() as int) == old(dst)@.skip(read.filled() as int),
                frame(events@, room) == dst@.take(read.filled() as int) + if read.ended() {
                    Seq::<u8>::empty()
                } else {
                    frame(events@.skip(taken as int), (room - read.filled()) as nat)
                },
                frame_events(events@, room) == taken + if read.ended() {
                    0nat
                } else {
                    frame_events(events@.skip(taken as int), (room - read.filled()) as nat)
                },
            decreases events@.len() - taken,
        {
            let ghost before = dst@;
            let ghost at = read.filled() as int;
            let ghost rest = events@.skip(taken as int);
            step = read.on_event(dst, events[taken]);
            proof {
                assert(rest[0] == events@[taken as int]);
                assert(rest.drop_first() =~= events@.skip(taken + 1));
                match events@[taken as int] {
                    LineEvent::Byte(byte) => {
                        assert(dst@.take(at + 1) =~= before.take(at) + seq![byte]);
                        assert(dst@.skip(at + 1) =~= before.skip(at).skip(1));
                        assert(old(dst)@.skip(at + 1) =~= old(dst)@.skip(at).skip(1));
                        assert(before.take(at) + (seq![byte] + frame(
                            rest.drop_first(),
                            (room - at - 1) as nat,
                        )) =~= (before.take(at) + seq![byte]) + frame(
                            rest.drop_first(),
                            (room - at - 1) as nat,
                        ));
                    },
                    LineEvent::Idle => {},
                }
            }
            taken += 1;
        }
        proof {
            let rest = events@.skip(taken as int);
            let left = (room - read.filled()) as nat;
            if !read.ended() {
                assert(left == 0 || rest.len() == 0);
                assert(frame(rest, left) =~= Seq::<u8>::empty());
                assert(frame_events(rest, left) == 0);
            }
            assert(dst@.take(read.filled() as int) + Seq::<u8>::empty() =~= dst@.take(
                read.filled() as int,
            ));
        }
        (read.filled, taken)
    }
}

/// A burst of bytes that ends in a pause is read as one frame by a reader
/// whose buffer has room for it: the read collects exactly the bytes of
/// the burst. It takes the burst from the line, and the pause too unless
/// the burst has filled the buffer.
pub proof fn lemma_burst_is_one_frame(bytes: Seq<u8>, later: Seq<LineEvent>, room: nat)
    requires
        bytes.len() <= room,
    ensures
        frame(burst(bytes) + seq![LineEvent::Idle] + later, room) == bytes,
        frame_events(burst(bytes) + seq![LineEvent::Idle] + later, room) == if bytes.len()
            < room {
            bytes.len() + 1
        } else {
            bytes.len()
        },
    decreases bytes.len(),
{
    let events = burst(bytes) + seq![LineEvent::Idle] + later;
    if bytes.len() == 0 {
        assert(events[0] == LineEvent::Idle);
        assert(frame(events, room) =~= bytes);
    } else {
        let tail = bytes.drop_first();
        assert(events[0] == LineEvent::Byte(bytes[0]));
        assert(events.drop_first() =~= burst(tail) + seq![LineEvent::Idle] + later);
        lemma_burst_is_one_frame(tail, later, (room - 1) as nat);
        assert(seq![bytes[0]] + tail =~= bytes);
    }
}

/// Bytes that a pause parts are read as frames of their own. Of two bursts
/// that each end in a pause, a first read collects the first burst and
/// nothing of the second. Where the first burst left room in the buffer,
/// the next read collects the second burst; where it filled the buffer,
/// the first read ended before the pause, so the next read meets the pause
/// and collects nothing, and the read after that collects the second
/// burst.
pub proof fn lemma_pause_parts_frames(first: Seq<u8>, second: Seq<u8>, room: nat)
    requires
        first.len() <= room,
        second.len() <= room,
    ensures
        ({
            let events = burst(first) + seq![LineEvent::Idle] + (burst(second)
                + seq![LineEvent::Idle]);
            let left = events.skip(frame_events(events, room) as int);
            let last = left.skip(frame_events(left, room) as int);
            &&& frame(events, room) == first
            &&& first.len() < room ==> frame(left, room) == second
            &&& first.len() == room ==> frame(left, room) == Seq::<u8>::empty() && frame(
                last,
                room,
            ) == second
        }),
{
    let tail = burst(second) + seq![LineEvent::Idle];
    let events = burst(first) + seq![LineEvent::Idle] + tail;
    lemma_burst_is_one_frame(first, tail, room);
    let left = events.skip(frame_events(events, room) as int);
    lemma_burst_is_one_frame(second, Seq::empty(), room);
    assert(tail + Seq::<LineEvent>::empty() =~= tail);
    if first.len() < room {
        assert(left =~= tail);
    } else {
        assert(left =~= seq![LineEvent::Idle] + tail);
        assert(left[0] == LineEvent::Idle);
        assert(frame(left, room) =~= Seq::<u8>::empty());
        if room == 0 {
            assert(left.skip(0) =~= left);
            assert(second =~= Seq::<u8>::empty());
        } else {
            assert(frame_events(left, room) == 1);
            assert(left.skip(1) =~= tail);
        }
    }
}

/// The serial port of the code under test.
pub struct Uart {
    port: Port,
}

/// The port at the other end of the link, by which a harness talks to the
/// code under test.
pub type UartStimulus = Uart;

impl Uart {
    /// The two queues and the timeout of this port.
    pub closed spec fn link(&self) -> Port {
        self.port
    }

    /// The bytes that this port has put into its queue, in their order.
    pub open spec fn sent(&self) -> Seq<u8> {
        self.link().sent()
    }

    /// A link, as its two ports: what either sends, the other receives. A
    /// read on either ends when no byte has arrived for `timeout`; each
    /// direction is a queue made with the buffer size `buffer_size`.
    pub fn new(timeout: Duration, buffer_size: usize) -> (ports: (Uart, UartStimulus))
        requires
            buffer_size < MAX_BUFFER,
        ensures
            ports.0.link().joined_to(&ports.1.link()),
            ports.0.sent() == Seq::<u8>::empty(),
            ports.1.sent() == Seq::<u8>::empty(),
            ports.0.link().idle_timeout() == timeout,
            ports.1.link().idle_timeout() == timeout,
    {
        let (a, b) = Port::pair(timeout, buffer_size);
        (Uart { port: a }, Uart { port: b })
    }

    /// Puts the bytes of `src` into the queue in their order, without
    /// waiting, until the queue refuses one. The bytes before the refused
    /// one stay in the queue; the error tells how many they are, and why
    /// the queue refused.
    pub fn try_write(&mut self, src: &[u8]) -> (res: Result<(), WriteError>)
        ensures
            res is Ok ==> final(self).sent() == old(self).sent() + src@,
            res matches Err(e) ==> e.sent < src@.len() && final(self).sent() == old(self).sent()
                + src@.take(e.sent as int),
            res matches Err(e) ==> exists|error: mpsc::TrySendError<u8>|
                e.refusal == #[trigger] Refusal::of(error),
            same_queue(final(self).link().outbox(), old(self).link().outbox()),
            final(self).link().inbox() == old(self).link().inbox(),
            final(self).link().idle_timeout() == old(self).link().idle_timeout(),
    {
        self.port.try_write(src)
    }

    /// The two queues and the timeout of this port, for the task that
    /// reads and writes with waiting. What that task does to them is done
    /// to this port.
    pub fn port(&mut self) -> (port: &mut Port)
        ensures
            *port == old(self).link(),
            final(self).link() == *final(port),
    {
        &mut self.port
    }
}

} // verus!
