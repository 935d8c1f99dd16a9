//! Simulated digital pins. A pin is a pair of handles: an output, which
//! holds the level and sets it, and an input or a stimulus, which reads the
//! level from the output. Either handle may be the side of the code under
//! test. Where the two sides run side by side, they share the output
//! behind a lock of their own.

use crate::utils::signal;
use vstd::prelude::*;

pub mod input;
pub mod output;

pub use input::Input;
pub use output::Output;
pub use output::OutputStimulus;

verus! {

/// The level of a digital pin.
#[derive(Clone, Copy, Debug, PartialEq, Eq, Structural)]
pub enum PinLevel {
    Low,
    High,
}

impl PinLevel {
    /// The other level.
    pub open spec fn inverse(self) -> PinLevel {
        match self {
            PinLevel::Low => PinLevel::High,
            PinLevel::High => PinLevel::Low,
        }
    }

    pub open spec fn spec_is_high(self) -> bool {
        self == PinLevel::High
    }

    /// Whether this level is `High`.
    #[verifier::when_used_as_spec(spec_is_high)]
    pub fn is_high(self) -> (high: bool)
        ensures
            high == (self == PinLevel::High),
    {
        match self {
            PinLevel::High => true,
            PinLevel::Low => false,
        }
    }

    /// The other level.
    pub fn opposite(self) -> (level: PinLevel)
        ensures
            level == self.inverse(),
    {
        match self {
            PinLevel::Low => PinLevel::High,
            PinLevel::High => PinLevel::Low,
        }
    }
}

/// A pin at `initial_state`, as the input that reads it and the output that
/// drives it. The output publishes each level that it sets, so that the
/// input can wait for levels and edges.
pub fn new(initial_state: PinLevel) -> (pin: (Input, Output))
    ensures
        pin.1.level() == initial_state,
        pin.1.publishes(),
        pin.1.published() == initial_state,
{
    let (tx, rx) = signal(initial_state);
    (Input::wired(rx), Output::wired(initial_state, tx))
}

} // verus!
