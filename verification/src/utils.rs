//! A signal that holds the latest value published on it. Publishing
//! replaces a value that no waiter has taken yet: a waiter that comes late
//! sees the latest value only.

use tokio::sync::watch;
use vstd::prelude::*;

verus! {

/// `tokio::sync::watch::Sender`, the sending end of a channel that keeps
/// the latest value; opaque here.
#[verifier::external_type_specification]
#[verifier::external_body]
#[verifier::reject_recursive_types(T)]
pub struct ExWatchSender<T>(watch::Sender<T>);

/// `tokio::sync::watch::Receiver`, the receiving end of such a channel;
/// opaque here.
#[verifier::external_type_specification]
#[verifier::external_body]
#[verifier::reject_recursive_types(T)]
pub struct ExWatchReceiver<T>(watch::Receiver<T>);

/// `tokio::sync::watch::channel`: a channel that holds `init` until a value
/// is sent on it. Nothing is claimed of the two ends.
#[verifier::external_body]
fn watch_channel<T: Clone>(init: T) -> (ends: (watch::Sender<T>, watch::Receiver<T>)) {
    watch::channel(init)
}

/// `tokio::sync::watch::Sender::send`: replaces the value that the channel
/// holds and wakes the receivers, unless every receiver is gone, in which
/// case the value is dropped. Nothing is claimed of what the receivers see.
#[verifier::external_body]
fn watch_send<T: Clone>(sender: &watch::Sender<T>, value: T) {
    let _ = sender.send(value);
}

/// The publishing side of a signal. There is one such side to a signal, so
/// the value that it published last is the latest value of the signal.
#[verifier::reject_recursive_types(T)]
pub struct SignalTx<T: Clone> {
    inner: watch::Sender<T>,
    latest: Ghost<T>,
}

/// The waiting side of a signal.
#[verifier::reject_recursive_types(T)]
pub struct SignalRx<T: Clone> {
    inner: watch::Receiver<T>,
}

/// A signal that holds `init`, as its two sides.
pub fn signal<T: Clone>(init: T) -> (sides: (SignalTx<T>, SignalRx<T>))
    ensures
        sides.0.latest() == init,
{
    let ghost latest = init;
    let (tx, rx) = watch_channel(init);
    (SignalTx { inner: tx, latest: Ghost(latest) }, SignalRx { inner: rx })
}

impl<T: Clone> SignalTx<T> {
    /// The latest value of the signal: the value published last, or the
    /// value that the signal was made with if none was published.
    pub closed spec fn latest(&self) -> T {
        self.latest@
    }

    /// Publishes `x`: it replaces whatever the signal held, seen or not,
    /// and is the latest value from now on.
    pub fn signal(&mut self, x: T)
        ensures
            final(self).latest() == x,
    {
        self.latest = Ghost(x);
        watch_send(&self.inner, x);
    }
}

impl<T: Clone> SignalRx<T> {
    /// The receiving end of the channel.
    pub closed spec fn end(&self) -> watch::Receiver<T> {
        self.inner
    }

    /// The receiving end of the channel, for the task that waits on it.
    /// What that task does to it, such as marking a value as seen, is done
    /// to this side of the signal.
    pub fn receiver(&mut self) -> (end: &mut watch::Receiver<T>)
        ensures
            *end == old(self).end(),
            final(self).end() == *final(end),
    {
        &mut self.inner
    }
}

} // verus!
