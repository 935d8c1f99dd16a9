//! The bridge between a tap interface of the host and the packet queues of
//! a network stack: what the task that runs the bridge decides. The task
//! itself does the waiting, on the interface and on the queues.

use vstd::prelude::*;

verus! {

/// Whether the simulated link carries frames.
#[derive(Clone, Copy, Debug, PartialEq, Eq, Structural)]
pub enum LinkState {
    Down,
    Up,
}

/// What the task waits for, all at once: whichever comes first is served.
#[derive(Clone, Copy, Debug, PartialEq, Eq, Structural)]
pub struct Lanes {
    /// A frame from the host interface, to be received into the staging
    /// buffer.
    pub host_frame: bool,
    /// A free slot of the stack's receive queue, to deliver the staged
    /// frame into.
    pub rx_slot: bool,
    /// A frame that the stack has queued for sending, to be handed to the
    /// host interface.
    pub tx_frame: bool,
}

/// What a running bridge waits for with `staged` bytes staged. It always
/// waits for a frame to send, whatever the receiving side is waiting for.
/// On the receiving side it waits for a frame from the host while none is
/// staged, and for a free slot while one is: a staged frame is never
/// received over.
pub open spec fn lanes_of(staged: nat) -> Lanes {
    Lanes { host_frame: staged == 0, rx_slot: staged > 0, tx_frame: true }
}

/// The state of a bridge for frames of up to `MTU` bytes: the state of the
/// link, and the number of bytes at the front of the task's staging buffer
/// that hold a frame received from the host and not yet delivered to the
/// stack.
pub struct FrameBridge<const MTU: usize> {
    link: LinkState,
    staged: usize,
}

impl<const MTU: usize> FrameBridge<MTU> {
    #[verifier::type_invariant]
    spec fn fits(&self) -> bool {
        self.staged <= MTU
    }

    /// The state of the link.
    pub closed spec fn link(&self) -> LinkState {
        self.link
    }

    /// The number of bytes of the staged frame; 0 where none is staged.
    pub closed spec fn staged(&self) -> nat {
        self.staged as nat
    }

    /// A bridge that is not running yet: the link is down and nothing is
    /// staged.
    pub fn new() -> (bridge: Self)
        ensures
            bridge.link() == LinkState::Down,
            bridge.staged() == 0,
    {
        Self { link: LinkState::Down, staged: 0 }
    }

    /// Begins to run the bridge: the link is up from now on. Returns the
    /// state to report to the stack.
    pub fn start(&mut self) -> (link: LinkState)
        ensures
            link == LinkState::Up,
            final(self).link() == LinkState::Up,
            final(self).staged() == old(self).staged(),
    {
        proof {
            use_type_invariant(&*self);
        }
        self.link = LinkState::Up;
        LinkState::Up
    }

    /// The state of the link.
    pub fn link_state(&self) -> (link: LinkState)
        ensures
            link == self.link(),
    {
        self.link
    }

    /// The number of bytes of the staged frame; 0 where none is staged.
    pub fn staged_len(&self) -> (len: usize)
        ensures
            len == self.staged(),
            len <= MTU,
    {
        proof {
            use_type_invariant(self);
        }
        self.staged
    }

    /// What the task waits for next.
    pub fn lanes(&self) -> (lanes: Lanes)
        ensures
            lanes == lanes_of(self.staged()),
            self.staged() <= MTU,
    {
        proof {
            use_type_invariant(self);
        }
        Lanes { host_frame: self.staged == 0, rx_slot: self.staged > 0, tx_frame: true }
    }

    /// Takes note that the host interface has received `len` bytes into
    /// the staging buffer: they are the staged frame from now on. After a
    /// receipt of no bytes nothing is staged, and `lanes` asks for a frame
    /// from the host again.
    pub fn frame_received(&mut self, len: usize)
        requires
            len <= MTU,
        ensures
            final(self).staged() == len,
            final(self).link() == old(self).link(),
    {
        proof {
            use_type_invariant(&*self);
        }
        self.staged = len;
    }

    /// Delivers the frame staged in `staging` into `slot`, a free slot of
    /// the stack's receive queue: copies the frame, whole and byte for
    /// byte, to the front of the slot, and frees the staging buffer for
    /// the next frame. Returns the length of the frame, by which the slot
    /// is marked done.
    pub fn deliver(&mut self, staging: &[u8; MTU], slot: &mut [u8]) -> (len: usize)
        requires
            old(self).staged() <= old(slot)@.len(),
        ensures
            len == old(self).staged(),
            len <= MTU,
            final(slot)@.len() == old(slot)@.len(),
            final(slot)@.take(len as int) == staging@.take(len as int),
            final(slot)@.skip(len as int) == old(slot)@.skip(len as int),
            final(self).staged() == 0,
            final(self).link() == old(self).link(),
    {
        proof {
            use_type_invariant(&*self);
        }
        let len = self.staged;
        let mut i: usize = 0;
        while i < len
            invariant
                i <= len,
                len <= MTU,
                len <= slot@.len(),
                slot@.len() == old(slot)@.len(),
                forall|j: int| 0 <= j < i ==> slot@[j] == staging@[j],
                forall|j: int| i <= j < slot@.len() ==> slot@[j] == old(slot)@[j],
            decreases len - i,
        {
            slot[i] = staging[i];
            i += 1;
        }
        self.staged = 0;
        assert(slot@.take(len as int) =~= staging@.take(len as int));
        assert(slot@.skip(len as int) =~= old(slot)@.skip(len as int));
        len
    }
}

/// Sending never waits on receiving: whatever is staged, a running bridge
/// waits for a frame to send. And on the receiving side it waits for one
/// thing at a time: for a frame from the host, or for a slot to deliver the
/// staged frame into.
pub proof fn lemma_lanes_stay_open(staged: nat)
    ensures
        lanes_of(staged).tx_frame,
        lanes_of(staged).host_frame != lanes_of(staged).rx_slot,
        lanes_of(staged).rx_slot <==> staged > 0,
{
}

/// One step of the receiving side of a running bridge.
pub enum RxStep {
    /// The host interface hands over a frame, which is staged.
    Receive(Seq<u8>),
    /// The staged frame goes into a free slot of the stack.
    Deliver,
}

/// The frame that is staged after `steps`; empty where none is.
pub open spec fn staged_after(steps: Seq<RxStep>) -> Seq<u8> {
    if steps.len() == 0 {
        Seq::empty()
    } else {
        match steps.last() {
            RxStep::Receive(frame) => frame,
            RxStep::Deliver => Seq::empty(),
        }
    }
}

/// Whether each of `steps` is one that the bridge waits for when it is
/// taken: a receipt while nothing is staged, a delivery while a frame is.
pub open spec fn in_turn(steps: Seq<RxStep>) -> bool
    decreases steps.len(),
{
    steps.len() == 0 || {
        let before = staged_after(steps.drop_last()).len();
        &&& in_turn(steps.drop_last())
        &&& match steps.last() {
            RxStep::Receive(_) => lanes_of(before).host_frame,
            RxStep::Deliver => lanes_of(before).rx_slot,
        }
    }
}

/// The frames of at least one byte that the host handed over in `steps`,
/// in their order.
pub open spec fn frames_received(steps: Seq<RxStep>) -> Seq<Seq<u8>>
    decreases steps.len(),
{
    if steps.len() == 0 {
        Seq::empty()
    } else {
        match steps.last() {
            RxStep::Receive(frame) => if frame.len() > 0 {
                frames_received(steps.drop_last()).push(frame)
            } else {
                frames_received(steps.drop_last())
            },
            RxStep::Deliver => frames_received(steps.drop_last()),
        }
    }
}

/// The frames that went into slots of the stack in `steps`, in their
/// order.
pub open spec fn frames_delivered(steps: Seq<RxStep>) -> Seq<Seq<u8>>
    decreases steps.len(),
{
    if steps.len() == 0 {
        Seq::empty()
    } else {
        match steps.last() {
            RxStep::Receive(_) => frames_delivered(steps.drop_last()),
            RxStep::Deliver => frames_delivered(steps.drop_last()).push(
                staged_after(steps.drop_last()),
            ),
        }
    }
}

/// No frame is lost, doubled or overtaken on its way to the stack: as long
/// as the bridge takes each step in its turn, the frames delivered, with
/// the frame that is staged still, are the frames received, in the order
/// in which they came. That a free slot and the next frame do come in time
/// is up to the stack and the host.
pub proof fn lemma_frames_cross_in_order(steps: Seq<RxStep>)
    requires
        in_turn(steps),
    ensures
        frames_received(steps) == frames_delivered(steps) + if staged_after(steps).len() > 0 {
            seq![staged_after(steps)]
        } else {
            Seq::<Seq<u8>>::empty()
        },
    decreases steps.len(),
{
    if steps.len() > 0 {
        let front = steps.drop_last();
        lemma_frames_cross_in_order(front);
        match steps.last() {
            RxStep::Receive(frame) => {
                assert(frames_received(front) =~= frames_delivered(front));
                if frame.len() > 0 {
                    assert(frames_delivered(front).push(frame) =~= frames_delivered(front)
                        + seq![frame]);
                } else {
                    assert(frames_delivered(front) + Seq::<Seq<u8>>::empty()
                        =~= frames_delivered(front));
                }
            },
            RxStep::Deliver => {
                assert(frames_delivered(front) + seq![staged_after(front)]
                    =~= frames_delivered(front).push(staged_after(front)));
                assert(frames_delivered(steps) + Seq::<Seq<u8>>::empty() =~= frames_delivered(
                    steps,
                ));
            },
        }
    } else {
        assert(frames_delivered(steps) + Seq::<Seq<u8>>::empty() =~= frames_delivered(steps));
    }
}

} // verus!
