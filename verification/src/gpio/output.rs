//! The driving side of a pin, and the stimulus that observes it.

use crate::gpio::PinLevel;
use crate::utils::SignalTx;
use vstd::prelude::*;

verus! {

/// The handle that drives a pin. It holds the level of the pin: what it
/// set last is what every reader of the pin reads.
pub struct Output {
    level: PinLevel,
    w: Option<SignalTx<PinLevel>>,
}

/// The handle by which a harness reads the level that an [`Output`] drives.
pub struct OutputStimulus;

impl Output {
    /// The level of the pin.
    pub closed spec fn level(&self) -> PinLevel {
        self.level
    }

    /// Whether each level that is set is also published to a waiting input.
    pub closed spec fn publishes(&self) -> bool {
        self.w is Some
    }

    /// The level published last, where the output publishes.
    pub closed spec fn published(&self) -> PinLevel {
        self.w->0.latest()
    }

    /// The output of a pin at `level` that publishes on `w`.
    pub(crate) fn wired(level: PinLevel, w: SignalTx<PinLevel>) -> (output: Self)
        ensures
            output.level() == level,
            output.publishes(),
            output.published() == w.latest(),
    {
        Self { level, w: Some(w) }
    }

    /// A pin at `initial_state`, as the output that drives it and the
    /// stimulus that polls it. Nothing waits on such a pin, so nothing is
    /// published.
    pub fn new(initial_state: PinLevel) -> (pin: (Self, OutputStimulus))
        ensures
            pin.0.level() == initial_state,
            !pin.0.publishes(),
    {
        (Self { level: initial_state, w: None }, OutputStimulus)
    }

    /// The level of the pin now.
    pub fn read(&self) -> (level: PinLevel)
        ensures
            level == self.level(),
    {
        self.level
    }

    /// Sets the level of the pin, and publishes it where an input waits.
    pub fn set(&mut self, level: PinLevel)
        ensures
            final(self).level() == level,
            final(self).publishes() == old(self).publishes(),
            final(self).publishes() ==> final(self).published() == level,
    {
        self.level = level;
        match &mut self.w {
            Some(w) => {
                w.signal(level);
            },
            None => {},
        }
    }

    /// Sets the pin low.
    pub fn set_low(&mut self)
        ensures
            final(self).level() == PinLevel::Low,
            final(self).publishes() == old(self).publishes(),
            final(self).publishes() ==> final(self).published() == PinLevel::Low,
    {
        self.set(PinLevel::Low)
    }

    /// Sets the pin high.
    pub fn set_high(&mut self)
        ensures
            final(self).level() == PinLevel::High,
            final(self).publishes() == old(self).publishes(),
            final(self).publishes() ==> final(self).published() == PinLevel::High,
    {
        self.set(PinLevel::High)
    }
}

impl OutputStimulus {
    /// The level to which `output` drives its pin now.
    pub fn get(&mut self, output: &Output) -> (level: PinLevel)
        ensures
            level == output.level(),
    {
        output.read()
    }
}

} // verus!
