//! A simulated analog input: the converter reads from a channel the value
//! that the stimulus last set in it.
//!
//! A channel is a plain value with one owner. Where the code under test and
//! the harness run side by side, they share the channel behind a lock of
//! their own; the stimulus is the one side that sets it.

use vstd::prelude::*;

verus! {

/// The converter of the code under test.
pub struct Adc;

/// One analog channel. Its view is the value that the converter reads
/// from it.
pub struct AdcChannel {
    value: u16,
}

/// The stimulus of an analog channel: the side that sets its value.
pub struct AdcChannelStimulus;

impl View for AdcChannel {
    type V = u16;

    closed spec fn view(&self) -> u16 {
        self.value
    }
}

impl Adc {
    /// The value of `channel`: the value set last, or the initial value of
    /// the channel if none was set.
    pub fn read(&mut self, channel: &AdcChannel) -> (sample: u16)
        ensures
            sample == channel@,
    {
        channel.value
    }
}

impl AdcChannel {
    /// A channel at `initial_value`, with its stimulus.
    pub fn new(initial_value: u16) -> (pair: (Self, AdcChannelStimulus))
        ensures
            pair.0@ == initial_value,
    {
        (Self { value: initial_value }, AdcChannelStimulus)
    }
}

impl AdcChannelStimulus {
    /// Sets `channel` to `value`, for the converter to read.
    pub fn set(&mut self, channel: &mut AdcChannel, value: u16)
        ensures
            final(channel)@ == value,
    {
        channel.value = value;
    }
}

} // verus!
